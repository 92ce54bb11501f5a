use vstd::prelude::*;

verus! {

pub const KBD_RES_ACK: u8 = 0xFA;
pub const KBD_RES_ECHO: u8 = 0xEE;
pub const KBD_RES_RESEND: u8 = 0xFE;
pub const KBD_RES_ERROR_A: u8 = 0x00;
pub const KBD_RES_ERROR_B: u8 = 0xFF;
pub const KBD_RES_ST_PASS: u8 = 0xAA;
pub const KBD_RES_ST_FAIL_A: u8 = 0xFC;
pub const KBD_RES_ST_FAIL_B: u8 = 0xFD;

pub const KBD_COM_LED: u8 = 0xED;
pub const KBD_COM_ECHO: u8 = 0xEE;
pub const KBD_COM_SCANCODE: u8 = 0xF0;
pub const KBD_COM_IDENTIFY: u8 = 0xF2;
pub const KBD_COM_TYPEMATIC: u8 = 0xF3;
pub const KBD_COM_SCAN_ON: u8 = 0xF4;
pub const KBD_COM_SCAN_OFF: u8 = 0xF5;
pub const KBD_COM_SET_DEFAULT: u8 = 0xF6;
pub const KBD_COM_RESEND: u8 = 0xFE;
pub const KBD_COM_SELF_TEST: u8 = 0xFF;

/// What the keyboard's answer to a command means for the driver.
#[derive(Clone, Copy, Debug, PartialEq, Eq, Structural)]
pub enum Reply {
    /// The command was carried out (or the self test passed).
    Done,
    /// The self test failed.
    Failed,
    /// The keyboard asks for the command again; the driver resends once.
    Retry,
    /// The keyboard asked for the command again after it was resent.
    GaveUp,
    /// An answer the command does not expect.
    Invalid(u8),
}

/// The meaning of `response` to the self-test command.
pub open spec fn self_test_reply(response: u8, resent: bool) -> Reply {
    if response == KBD_RES_ST_PASS {
        Reply::Done
    } else if response == KBD_RES_ST_FAIL_A || response == KBD_RES_ST_FAIL_B {
        Reply::Failed
    } else if response == KBD_RES_RESEND {
        if resent { Reply::GaveUp } else { Reply::Retry }
    } else {
        Reply::Invalid(response)
    }
}

/// The meaning of `response` to a command that is acknowledged.
pub open spec fn ack_reply(response: u8, resent: bool) -> Reply {
    if response == KBD_RES_ACK {
        Reply::Done
    } else if response == KBD_RES_RESEND {
        if resent { Reply::GaveUp } else { Reply::Retry }
    } else {
        Reply::Invalid(response)
    }
}

/// The scan code set a keyboard reports, from its answer to the
/// get-scan-code-set query.
pub open spec fn scan_table_of(response: u8) -> Option<u8> {
    if response == 0x43 {
        Some(1u8)
    } else if response == 0x41 {
        Some(2u8)
    } else if response == 0x3f {
        Some(3u8)
    } else {
        None
    }
}

/// The command protocol of a generic PS/2 keyboard.
pub struct PS2Keyboard;

impl PS2Keyboard {
    pub fn self_test_reply(response: u8, resent: bool) -> (r: Reply)
        ensures
            r == self_test_reply(response, resent),
    {
        if response == KBD_RES_ST_PASS {
            Reply::Done
        } else if response == KBD_RES_ST_FAIL_A || response == KBD_RES_ST_FAIL_B {
            Reply::Failed
        } else if response == KBD_RES_RESEND {
            if resent { Reply::GaveUp } else { Reply::Retry }
        } else {
            Reply::Invalid(response)
        }
    }

    pub fn ack_reply(response: u8, resent: bool) -> (r: Reply)
        ensures
            r == ack_reply(response, resent),
    {
        if response == KBD_RES_ACK {
            Reply::Done
        } else if response == KBD_RES_RESEND {
            if resent { Reply::GaveUp } else { Reply::Retry }
        } else {
            Reply::Invalid(response)
        }
    }

    pub fn scan_table(response: u8) -> (r: Option<u8>)
        ensures
            r == scan_table_of(response),
    {
        if response == 0x43 {
            Some(1)
        } else if response == 0x41 {
            Some(2)
        } else if response == 0x3f {
            Some(3)
        } else {
            None
        }
    }
}

} // verus!
