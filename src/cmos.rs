use vstd::prelude::*;

verus! {

/// Reading of one POST status bit.
#[derive(Clone, Copy, Debug, PartialEq, Eq, Structural)]
pub enum POSTResult {
    Pass,
    Fail,
    Yes,
    No,
}

impl POSTResult {
    pub fn as_str(&self) -> (r: &'static str)
        ensures
            r@ == (match *self {
                POSTResult::Pass => "OK"@,
                POSTResult::Fail => "FAIL"@,
                POSTResult::Yes => "YES"@,
                POSTResult::No => "NO"@,
            }),
    {
        proof {
            reveal_strlit("OK");
            reveal_strlit("FAIL");
            reveal_strlit("YES");
            reveal_strlit("NO");
        }
        match self {
            POSTResult::Pass => "OK",
            POSTResult::Fail => "FAIL",
            POSTResult::Yes => "YES",
            POSTResult::No => "NO",
        }
    }
}

pub const ADAPTER_TIMEOUT_CHECK: u8 = 0b0000_0001;
pub const ADAPTER_VALIDITY: u8 = 0b0000_0010;
pub const TIME_VALIDITY: u8 = 0b0000_0100;
pub const DRIVE_FAILURE: u8 = 0b0000_1000;
pub const MEMORY_AMOUNT_MATCH: u8 = 0b0001_0000;
pub const CONFIGURATION_MATCH: u8 = 0b0010_0000;
pub const CMOS_CHECKSUM: u8 = 0b0100_0000;
pub const POWER_SUPPLY: u8 = 0b1000_0000;

/// The POST status byte; each bit reports one check.
#[derive(Clone, Copy, Debug, PartialEq, Eq, Structural)]
pub struct POSTData {
    pub bits: u8,
}

/// The reading of a status bit: `set` when it is one, `clear` when zero.
pub open spec fn status_of(bits: u8, flag: u8, clear: POSTResult, set: POSTResult) -> POSTResult {
    if bits & flag == flag { set } else { clear }
}

impl POSTData {
    /// Every bit of the status byte is defined, so any byte is accepted.
    pub fn from_bits(bits: u8) -> (r: Option<POSTData>)
        ensures
            r == Some(POSTData { bits }),
    {
        Some(POSTData { bits })
    }

    pub fn contains(&self, flag: u8) -> (r: bool)
        ensures
            r == (self.bits & flag == flag),
    {
        self.bits & flag == flag
    }

    fn status(&self, flag: u8, clear: POSTResult, set: POSTResult) -> (r: POSTResult)
        ensures
            r == status_of(self.bits, flag, clear, set),
    {
        if self.contains(flag) { set } else { clear }
    }

    pub fn adapter_status(&self) -> (r: POSTResult)
        ensures
            r == status_of(self.bits, ADAPTER_TIMEOUT_CHECK, POSTResult::Pass, POSTResult::Fail),
    {
        self.status(ADAPTER_TIMEOUT_CHECK, POSTResult::Pass, POSTResult::Fail)
    }

    pub fn adapter_init_status(&self) -> (r: POSTResult)
        ensures
            r == status_of(self.bits, ADAPTER_VALIDITY, POSTResult::Pass, POSTResult::Fail),
    {
        self.status(ADAPTER_VALIDITY, POSTResult::Pass, POSTResult::Fail)
    }

    pub fn time_status(&self) -> (r: POSTResult)
        ensures
            r == status_of(self.bits, TIME_VALIDITY, POSTResult::Pass, POSTResult::Fail),
    {
        self.status(TIME_VALIDITY, POSTResult::Pass, POSTResult::Fail)
    }

    pub fn drive_status(&self) -> (r: POSTResult)
        ensures
            r == status_of(self.bits, DRIVE_FAILURE, POSTResult::Pass, POSTResult::Fail),
    {
        self.status(DRIVE_FAILURE, POSTResult::Pass, POSTResult::Fail)
    }

    pub fn memory_match_status(&self) -> (r: POSTResult)
        ensures
            r == status_of(self.bits, MEMORY_AMOUNT_MATCH, POSTResult::Yes, POSTResult::No),
    {
        self.status(MEMORY_AMOUNT_MATCH, POSTResult::Yes, POSTResult::No)
    }

    pub fn configuration_match_status(&self) -> (r: POSTResult)
        ensures
            r == status_of(self.bits, CONFIGURATION_MATCH, POSTResult::Yes, POSTResult::No),
    {
        self.status(CONFIGURATION_MATCH, POSTResult::Yes, POSTResult::No)
    }

    pub fn cmos_checksum_status(&self) -> (r: POSTResult)
        ensures
            r == status_of(self.bits, CMOS_CHECKSUM, POSTResult::Pass, POSTResult::Fail),
    {
        self.status(CMOS_CHECKSUM, POSTResult::Pass, POSTResult::Fail)
    }

    pub fn power_supply_status(&self) -> (r: POSTResult)
        ensures
            r == status_of(self.bits, POWER_SUPPLY, POSTResult::Pass, POSTResult::Fail),
    {
        self.status(POWER_SUPPLY, POSTResult::Pass, POSTResult::Fail)
    }
}

/// Date and time as the real-time clock reports them.
#[derive(Clone, Copy, Debug, PartialEq, Eq, Structural)]
pub struct CMOSDateTime {
    pub second: u8,
    pub minute: u8,
    pub hour: u8,
    pub day_of_week: u8,
    pub day_of_month: u8,
    pub month: u8,
    pub year: u16,
    pub century: u8,
}

#[derive(Clone, Copy, Debug, PartialEq, Eq, Structural)]
pub struct CMOSDate {
    pub day_of_week: u8,
    pub day_of_month: u8,
    pub month: u8,
    pub year: u16,
    pub century: u8,
}

#[derive(Clone, Copy, Debug, PartialEq, Eq, Structural)]
pub struct CMOSTime {
    pub second: u8,
    pub minute: u8,
    pub hour: u8,
}

impl CMOSDateTime {
    /// The date part.
    pub fn as_date(&self) -> (r: CMOSDate)
        ensures
            r == (CMOSDate {
                day_of_week: self.day_of_week,
                day_of_month: self.day_of_month,
                month: self.month,
                year: self.year,
                century: self.century,
            }),
    {
        CMOSDate {
            day_of_week: self.day_of_week,
            day_of_month: self.day_of_month,
            month: self.month,
            year: self.year,
            century: self.century,
        }
    }

    /// The time part.
    pub fn as_time(&self) -> (r: CMOSTime)
        ensures
            r == (CMOSTime { second: self.second, minute: self.minute, hour: self.hour }),
    {
        CMOSTime { second: self.second, minute: self.minute, hour: self.hour }
    }
}

/// The value of a binary-coded decimal byte.
pub open spec fn bcd_value(bcd: u8) -> u8 {
    ((bcd % 16) + 10 * (bcd / 16)) as u8
}

/// Register offsets of the clock's fields.
pub const CMOS_SECOND: u8 = 0x00;
pub const CMOS_MINUTE: u8 = 0x02;
pub const CMOS_HOUR: u8 = 0x04;
pub const CMOS_DAY_OF_WEEK: u8 = 0x06;
pub const CMOS_DAY_OF_MONTH: u8 = 0x07;
pub const CMOS_MONTH: u8 = 0x08;
pub const CMOS_YEAR: u8 = 0x09;
pub const CMOS_CENTURY: u8 = 0x32;
pub const CMOS_POST_STATUS: u8 = 0x0E;

/// The CMOS real-time clock and status memory.
pub struct CMOS;

impl CMOS {
    pub fn bcd_to_dec(bcd: u8) -> (r: u8)
        ensures
            r == bcd_value(bcd),
    {
        assert((bcd & 0x0F) == bcd % 16 && ((bcd & 0xF0) >> 4) == bcd / 16) by (bit_vector);
        (bcd & 0x0F) + 10 * ((bcd & 0xF0) >> 4)
    }

    /// The date and time the clock's registers hold, each in BCD.
    pub fn decode_date_time(
        second: u8,
        minute: u8,
        hour: u8,
        day_of_week: u8,
        day_of_month: u8,
        month: u8,
        year: u8,
        century: u8,
    ) -> (r: CMOSDateTime)
        ensures
            r == (CMOSDateTime {
                second: bcd_value(second),
                minute: bcd_value(minute),
                hour: bcd_value(hour),
                day_of_week: bcd_value(day_of_week),
                day_of_month: bcd_value(day_of_month),
                month: bcd_value(month),
                year: (100 * bcd_value(century) + bcd_value(year)) as u16,
                century: bcd_value(century),
            }),
    {
        let century = Self::bcd_to_dec(century);
        let year_low = Self::bcd_to_dec(year);
        CMOSDateTime {
            second: Self::bcd_to_dec(second),
            minute: Self::bcd_to_dec(minute),
            hour: Self::bcd_to_dec(hour),
            day_of_week: Self::bcd_to_dec(day_of_week),
            day_of_month: Self::bcd_to_dec(day_of_month),
            month: Self::bcd_to_dec(month),
            year: 100 * (century as u16) + (year_low as u16),
            century,
        }
    }

    /// The address-port byte that selects register `offset`, keeping the
    /// port's top bit (the NMI mask) as it was.
    pub fn select(previous: u8, offset: u8) -> (r: u8)
        ensures
            r == (previous & 0x80) | (offset & 0x7F),
    {
        (previous & 0x80) | (offset & 0x7F)
    }
}

} // verus!
