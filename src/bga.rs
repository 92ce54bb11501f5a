use vstd::prelude::*;

use crate::ansi::{codes_from, params_end, params_ok, Ansi, AnsiEscape};
use crate::pci::{address_word, is_candidate, PCIDevice, PCIFind, PCIBAR};
use vstd::string::*;

verus! {

pub const VBE_DISPI_GETCAPS: u16 = 2;
pub const VBE_DISPI_NUM_REGISTERS: u16 = 10;
pub const VBE_DISPI_INDEX_ID: u16 = 0;
pub const VBE_DISPI_INDEX_XRES: u16 = 1;
pub const VBE_DISPI_INDEX_YRES: u16 = 2;
pub const VBE_DISPI_INDEX_BPP: u16 = 3;
pub const VBE_DISPI_INDEX_ENABLE: u16 = 4;
pub const VBE_DISPI_DISABLED: u16 = 0;
pub const VBE_DISPI_ENABLED: u16 = 1;
pub const VBE_DISPI_LFB_ENABLED: u16 = 64;
pub const VBE_DISPI_NOCLEAR: u16 = 128;

/// PCI vendor and device identifiers of the Bochs graphics adapter.
pub const BGA_VENDOR_ID: u16 = 0x1234;
pub const BGA_DEVICE_ID: u16 = 0x1111;

pub const DEFAULT_WIDTH: usize = 1280;
pub const DEFAULT_HEIGHT: usize = 720;
pub const DEFAULT_BPP: u16 = 32;

/// A display mode.
#[derive(Clone, Copy, Debug, PartialEq, Eq, Structural)]
pub struct VideoMode {
    pub width: usize,
    pub height: usize,
    pub bpp: u16,
}

/// The Bochs graphics adapter: its PCI function, the limits it reports,
/// and its framebuffer and register BARs.
pub struct BochsGraphicsAdapter {
    pub pci_device: PCIDevice,
    pub max_bpp: u16,
    pub max_width: usize,
    pub max_height: usize,
    pub framebuffer_bar: PCIBAR,
    pub mmio_bar: PCIBAR,
}

pub open spec fn supports_spec(a: &BochsGraphicsAdapter, mode: VideoMode) -> bool {
    mode.width <= a.max_width && mode.height <= a.max_height && mode.bpp <= a.max_bpp
}

/// The register writes that set `mode`: disable, program resolution and
/// depth, then enable with the linear framebuffer (keeping its contents
/// unless `clear`).
pub open spec fn mode_writes(mode: VideoMode, clear: bool) -> Seq<(u16, u16)> {
    let enable = if clear {
        VBE_DISPI_ENABLED | VBE_DISPI_LFB_ENABLED
    } else {
        VBE_DISPI_ENABLED | VBE_DISPI_LFB_ENABLED | VBE_DISPI_NOCLEAR
    };
    seq![
        (VBE_DISPI_INDEX_ENABLE, VBE_DISPI_DISABLED),
        (VBE_DISPI_INDEX_XRES, mode.width as u16),
        (VBE_DISPI_INDEX_YRES, mode.height as u16),
        (VBE_DISPI_INDEX_BPP, mode.bpp),
        (VBE_DISPI_INDEX_ENABLE, enable),
    ]
}

impl BochsGraphicsAdapter {
    /// An adapter on `dev` with its two BARs; its limits are unknown
    /// until `init`.
    pub fn new(dev: &PCIDevice, framebuffer_bar: PCIBAR, mmio_bar: PCIBAR) -> (r: BochsGraphicsAdapter)
        ensures
            r.pci_device == *dev,
            r.framebuffer_bar == framebuffer_bar,
            r.mmio_bar == mmio_bar,
            r.max_bpp == 0 && r.max_width == 0 && r.max_height == 0,
    {
        BochsGraphicsAdapter { pci_device: *dev, max_bpp: 0, max_width: 0, max_height: 0, framebuffer_bar, mmio_bar }
    }

    /// The configuration address of the adapter's PCI function.
    pub fn addr(&self) -> (r: u32)
        requires
            self.pci_device.address.wf(),
        ensures
            r == address_word(self.pci_device),
    {
        self.pci_device.address.config_address()
    }

    /// Records the limits the adapter reports as its capabilities.
    pub fn init(self, max_bpp: u16, max_width: u16, max_height: u16) -> (r: BochsGraphicsAdapter)
        ensures
            r.pci_device == self.pci_device,
            r.framebuffer_bar == self.framebuffer_bar,
            r.mmio_bar == self.mmio_bar,
            r.max_bpp == max_bpp,
            r.max_width == max_width,
            r.max_height == max_height,
    {
        let mut s = self;
        s.max_bpp = max_bpp;
        s.max_width = max_width as usize;
        s.max_height = max_height as usize;
        s
    }

    /// The register writes, as (index, value) pairs in order, that switch
    /// the adapter to `mode`.
    pub fn set_video_mode(&mut self, mode: &VideoMode, clear: bool) -> (r: Vec<(u16, u16)>)
        ensures
            r@ == mode_writes(*mode, clear),
            *final(self) == *old(self),
    {
        let mut enable = VBE_DISPI_ENABLED | VBE_DISPI_LFB_ENABLED;
        if !clear {
            enable = enable | VBE_DISPI_NOCLEAR;
        }
        let mut writes: Vec<(u16, u16)> = Vec::new();
        writes.push((VBE_DISPI_INDEX_ENABLE, VBE_DISPI_DISABLED));
        writes.push((VBE_DISPI_INDEX_XRES, #[verifier::truncate] (mode.width as u16)));
        writes.push((VBE_DISPI_INDEX_YRES, #[verifier::truncate] (mode.height as u16)));
        writes.push((VBE_DISPI_INDEX_BPP, mode.bpp));
        writes.push((VBE_DISPI_INDEX_ENABLE, enable));
        assert(writes@ =~= mode_writes(*mode, clear));
        writes
    }

    /// 1280x720 at 32 bits per pixel, when the adapter supports it.
    pub fn get_default_mode(&self) -> (r: Option<VideoMode>)
        ensures
            r.is_some() == supports_spec(self, VideoMode { width: DEFAULT_WIDTH, height: DEFAULT_HEIGHT, bpp: DEFAULT_BPP }),
            r matches Some(m) ==> m == (VideoMode { width: DEFAULT_WIDTH, height: DEFAULT_HEIGHT, bpp: DEFAULT_BPP }),
    {
        let mode = VideoMode { width: DEFAULT_WIDTH, height: DEFAULT_HEIGHT, bpp: DEFAULT_BPP };
        if self.supports_resolution(mode) {
            return Some(mode);
        }
        None
    }

    pub fn supports_resolution(&self, mode: VideoMode) -> (r: bool)
        ensures
            r == supports_spec(self, mode),
    {
        if mode.width > self.max_width || mode.height > self.max_height || mode.bpp > self.max_bpp {
            return false;
        }
        true
    }

    /// The adapter with the lowest configuration address among the
    /// enumerated PCI functions.
    pub fn detect(devices: &Vec<PCIDevice>) -> (r: Result<PCIDevice, &'static str>)
        requires
            forall|i: int| 0 <= i < devices@.len() ==> (#[trigger] devices@[i]).address.wf(),
        ensures
            r.is_err() <==> !exists|i: int| 0 <= i < devices@.len()
                && is_candidate(PCIFind::new_spec(BGA_VENDOR_ID, BGA_DEVICE_ID), None, #[trigger] devices@[i]),
            r matches Ok(d) ==> {
                &&& devices@.contains(d)
                &&& is_candidate(PCIFind::new_spec(BGA_VENDOR_ID, BGA_DEVICE_ID), None, d)
                &&& forall|i: int| 0 <= i < devices@.len()
                    && is_candidate(PCIFind::new_spec(BGA_VENDOR_ID, BGA_DEVICE_ID), None, #[trigger] devices@[i])
                    ==> address_word(d) <= address_word(devices@[i])
            },
    {
        let find = PCIFind::new(BGA_VENDOR_ID, BGA_DEVICE_ID);
        match PCIDevice::search(&find, None, devices) {
            Some(dev) => Ok(dev),
            None => Err("Could not find Bochs Graphics Adapter"),
        }
    }
}

/// A character-cell display a terminal draws on.
pub trait TerminalProvider {
    /// Columns of character cells.
    spec fn cols(&self) -> usize;

    /// Rows of character cells.
    spec fn rows(&self) -> usize;

    /// Width of a cell in pixels.
    spec fn cell_width(&self) -> usize;

    /// Height of a cell in pixels.
    spec fn cell_height(&self) -> usize;

    /// The glyphs drawn so far, in order: pixel position, character and
    /// colors.
    spec fn drawn(&self) -> Seq<Draw>;

    fn get_width(&self) -> (r: usize)
        ensures
            r == self.cols(),
    ;

    fn get_height(&self) -> (r: usize)
        ensures
            r == self.rows(),
    ;

    fn get_char_width(&self) -> (r: usize)
        ensures
            r == self.cell_width(),
    ;

    fn get_char_height(&self) -> (r: usize)
        ensures
            r == self.cell_height(),
    ;

    /// Draws `character` with its top-left pixel at (`x`, `y`).
    fn draw_char(&mut self, x: usize, y: usize, character: char, fg: u32, bg: u32)
        ensures
            final(self).cols() == old(self).cols(),
            final(self).rows() == old(self).rows(),
            final(self).cell_width() == old(self).cell_width(),
            final(self).cell_height() == old(self).cell_height(),
            final(self).drawn() == old(self).drawn().push((x as int, y as int, character, fg, bg)),
    ;
}

/// One glyph drawn: pixel column and row, character, foreground and
/// background color.
pub type Draw = (int, int, char, u32, u32);

/// Cursor column and row, and current foreground and background colors.
pub type TermState = (int, int, u32, u32);

/// The state after a line feed: first column, next row unless on the
/// last one (the display does not scroll).
pub open spec fn newline_state(st: TermState, rows: int) -> TermState {
    (0, if st.1 < rows - 1 { st.1 + 1 } else { st.1 }, st.2, st.3)
}

/// The state after writing one character: a line feed, or a glyph at the
/// cursor (wrapping first when the row is full), advancing the cursor.
pub open spec fn char_state(st: TermState, c: char, cols: int, rows: int) -> TermState {
    if c == '\n' {
        newline_state(st, rows)
    } else {
        let s1 = if st.0 >= cols { newline_state(st, rows) } else { st };
        (s1.0 + 1, s1.1, s1.2, s1.3)
    }
}

/// The glyphs writing `c` draws in state `st`: none for a line feed,
/// else one at the cursor's cell (after wrapping) in the current colors.
pub open spec fn char_draws(st: TermState, c: char, cols: int, rows: int, cw: int, ch: int) -> Seq<Draw> {
    if c == '\n' {
        Seq::empty()
    } else {
        let s1 = if st.0 >= cols { newline_state(st, rows) } else { st };
        seq![(s1.0 * cw, s1.1 * ch, c, s1.2, s1.3)]
    }
}

/// The state after one escape parameter.
pub open spec fn code_state(code: Option<AnsiEscape>, st: TermState, palette: Seq<u32>, fg_def: u32, bg_def: u32) -> TermState {
    match code {
        Some(AnsiEscape::Reset) => (st.0, st.1, fg_def, bg_def),
        Some(AnsiEscape::Foreground(c)) => if c < palette.len() { (st.0, st.1, palette[c as int], st.3) } else { st },
        Some(AnsiEscape::Background(c)) => if c < palette.len() { (st.0, st.1, st.2, palette[c as int]) } else { st },
        None => st,
    }
}

/// The state after a list of escape parameters, in order.
pub open spec fn codes_state(codes: Seq<Option<AnsiEscape>>, st: TermState, palette: Seq<u32>, fg_def: u32, bg_def: u32) -> TermState
    decreases codes.len(),
{
    if codes.len() == 0 {
        st
    } else {
        codes_state(codes.drop_first(), code_state(codes[0], st, palette, fg_def, bg_def), palette, fg_def, bg_def)
    }
}

/// The state after the text `s` from position `i` on. An escape `ESC [
/// params m` applies its parameters; an `ESC` not followed by a
/// well-formed one ends the text.
pub open spec fn text_state(
    s: Seq<char>,
    i: int,
    st: TermState,
    cols: int,
    rows: int,
    palette: Seq<u32>,
    fg_def: u32,
    bg_def: u32,
) -> TermState
    decreases s.len() - i,
{
    if i < 0 || i >= s.len() {
        st
    } else if s[i] == '\x1b' {
        if i + 1 < s.len() && s[i + 1] == '[' && params_ok(s, i + 2) && i <= params_end(s, i + 2) < s.len() {
            text_state(s, params_end(s, i + 2) + 1,
                codes_state(codes_from(s, i + 2, false), st, palette, fg_def, bg_def),
                cols, rows, palette, fg_def, bg_def)
        } else {
            st
        }
    } else {
        text_state(s, i + 1, char_state(st, s[i], cols, rows), cols, rows, palette, fg_def, bg_def)
    }
}

/// The glyphs the text `s` draws from position `i` on, starting in state
/// `st`; escapes draw nothing, and a malformed one ends the text.
pub open spec fn text_draws(
    s: Seq<char>,
    i: int,
    st: TermState,
    cols: int,
    rows: int,
    cw: int,
    ch: int,
    palette: Seq<u32>,
    fg_def: u32,
    bg_def: u32,
) -> Seq<Draw>
    decreases s.len() - i,
{
    if i < 0 || i >= s.len() {
        Seq::empty()
    } else if s[i] == '\x1b' {
        if i + 1 < s.len() && s[i + 1] == '[' && params_ok(s, i + 2) && i <= params_end(s, i + 2) < s.len() {
            text_draws(s, params_end(s, i + 2) + 1,
                codes_state(codes_from(s, i + 2, false), st, palette, fg_def, bg_def),
                cols, rows, cw, ch, palette, fg_def, bg_def)
        } else {
            Seq::empty()
        }
    } else {
        char_draws(st, s[i], cols, rows, cw, ch).add(
            text_draws(s, i + 1, char_state(st, s[i], cols, rows), cols, rows, cw, ch, palette, fg_def, bg_def))
    }
}

/// A text terminal on a character-cell display, interpreting the color
/// escapes of its input.
pub struct TerminalDriver<P: TerminalProvider> {
    x: usize,
    y: usize,
    fg_def: u32,
    fg: u32,
    bg_def: u32,
    bg: u32,
    palette: Vec<u32>,
    pub provider: P,
}

impl<P: TerminalProvider> TerminalDriver<P> {
    pub closed spec fn state(&self) -> TermState {
        (self.x as int, self.y as int, self.fg, self.bg)
    }

    pub closed spec fn provider_spec(&self) -> P {
        self.provider
    }

    pub closed spec fn fg_default(&self) -> u32 {
        self.fg_def
    }

    pub closed spec fn bg_default(&self) -> u32 {
        self.bg_def
    }

    pub closed spec fn palette_spec(&self) -> Seq<u32> {
        self.palette@
    }

    /// The display is at least one cell large, its pixel dimensions fit
    /// a machine word, and the cursor is on it (or just past the last
    /// column).
    pub closed spec fn wf(&self) -> bool {
        &&& 1 <= self.provider.cols()
        &&& 1 <= self.provider.rows()
        &&& self.provider.cols() * self.provider.cell_width() <= usize::MAX
        &&& self.provider.rows() * self.provider.cell_height() <= usize::MAX
        &&& 0 <= self.state().0 <= self.provider.cols()
        &&& 0 <= self.state().1 < self.provider.rows()
    }

    /// A terminal at the top-left corner in light grey on black, entries
    /// 7 and 0 of `palette`.
    pub fn new(provider: P, palette: Vec<u32>) -> (r: TerminalDriver<P>)
        requires
            8 <= palette@.len(),
            1 <= provider.cols(),
            1 <= provider.rows(),
            provider.cols() * provider.cell_width() <= usize::MAX,
            provider.rows() * provider.cell_height() <= usize::MAX,
        ensures
            r.wf(),
            r.provider_spec() == provider,
            r.palette_spec() == palette@,
            r.state() == (0int, 0int, palette@[7], palette@[0]),
            r.fg_default() == palette@[7],
            r.bg_default() == palette@[0],
    {
        let fg = palette[7];
        let bg = palette[0];
        TerminalDriver { x: 0, y: 0, fg_def: fg, fg, bg_def: bg, bg, palette, provider }
    }

    /// Cursor column and row.
    pub fn cursor(&self) -> (r: (usize, usize))
        ensures
            r.0 == self.state().0 && r.1 == self.state().1,
    {
        (self.x, self.y)
    }

    /// Current foreground and background colors.
    pub fn colors(&self) -> (r: (u32, u32))
        ensures
            r.0 == self.state().2 && r.1 == self.state().3,
    {
        (self.fg, self.bg)
    }

    /// Restores the default colors.
    pub fn reset(&mut self)
        ensures
            final(self).state() == (old(self).state().0, old(self).state().1, old(self).fg_default(), old(self).bg_default()),
            final(self).fg_default() == old(self).fg_default(),
            final(self).bg_default() == old(self).bg_default(),
            final(self).palette_spec() == old(self).palette_spec(),
            final(self).provider_spec() == old(self).provider_spec(),
    {
        self.fg = self.fg_def;
        self.bg = self.bg_def;
    }

    /// Sets the default foreground color.
    pub fn set_fg(&mut self, color: u32)
        ensures
            final(self).fg_default() == color,
            final(self).bg_default() == old(self).bg_default(),
            final(self).state() == old(self).state(),
            final(self).palette_spec() == old(self).palette_spec(),
            final(self).provider_spec() == old(self).provider_spec(),
    {
        self.fg_def = color;
    }

    /// Sets the default background color.
    pub fn set_bg(&mut self, color: u32)
        ensures
            final(self).bg_default() == color,
            final(self).fg_default() == old(self).fg_default(),
            final(self).state() == old(self).state(),
            final(self).palette_spec() == old(self).palette_spec(),
            final(self).provider_spec() == old(self).provider_spec(),
    {
        self.bg_def = color;
    }

    /// Moves to the start of the next line, staying on the last line at
    /// the bottom.
    pub fn new_line(&mut self)
        requires
            old(self).wf(),
        ensures
            final(self).wf(),
            final(self).state() == newline_state(old(self).state(), old(self).provider_spec().rows() as int),
            final(self).fg_default() == old(self).fg_default(),
            final(self).bg_default() == old(self).bg_default(),
            final(self).palette_spec() == old(self).palette_spec(),
            final(self).provider_spec() == old(self).provider_spec(),
    {
        self.x = 0;
        if self.y < self.provider.get_height() - 1 {
            self.y = self.y + 1;
        }
    }

    /// Writes one character at the cursor.
    pub fn write_car(&mut self, c: char)
        requires
            old(self).wf(),
        ensures
            final(self).wf(),
            final(self).state() == char_state(old(self).state(), c, old(self).provider_spec().cols() as int,
                old(self).provider_spec().rows() as int),
            final(self).fg_default() == old(self).fg_default(),
            final(self).bg_default() == old(self).bg_default(),
            final(self).palette_spec() == old(self).palette_spec(),
            final(self).provider_spec().cols() == old(self).provider_spec().cols(),
            final(self).provider_spec().rows() == old(self).provider_spec().rows(),
            final(self).provider_spec().cell_width() == old(self).provider_spec().cell_width(),
            final(self).provider_spec().cell_height() == old(self).provider_spec().cell_height(),
            final(self).provider_spec().drawn() == old(self).provider_spec().drawn().add(char_draws(
                old(self).state(), c, old(self).provider_spec().cols() as int, old(self).provider_spec().rows() as int,
                old(self).provider_spec().cell_width() as int, old(self).provider_spec().cell_height() as int)),
    {
        if c == '\n' {
            self.new_line();
        } else {
            if self.x >= self.provider.get_width() {
                self.new_line();
            }
            let cw = self.provider.get_char_width();
            let ch = self.provider.get_char_height();
            let cols = self.provider.get_width();
            let rows = self.provider.get_height();
            proof {
                assert(self.x * cw <= cols * cw) by (nonlinear_arith)
                    requires self.x < cols;
                assert(self.y * ch <= rows * ch) by (nonlinear_arith)
                    requires self.y < rows;
            }
            let px = self.x * cw;
            let py = self.y * ch;
            self.provider.draw_char(px, py, c, self.fg, self.bg);
            self.x = self.x + 1;
        }
    }

    /// Applies the parameters of one escape.
    fn apply_codes(&mut self, codes: &Vec<Option<AnsiEscape>>)
        requires
            old(self).wf(),
        ensures
            final(self).wf(),
            final(self).state() == codes_state(codes@, old(self).state(), old(self).palette_spec(),
                old(self).fg_default(), old(self).bg_default()),
            final(self).fg_default() == old(self).fg_default(),
            final(self).bg_default() == old(self).bg_default(),
            final(self).palette_spec() == old(self).palette_spec(),
            final(self).provider_spec() == old(self).provider_spec(),
    {
        let n = codes.len();
        let mut k: usize = 0;
        assert(codes@.skip(0) =~= codes@);
        while k < n
            invariant
                n == codes@.len(),
                0 <= k <= n,
                self.wf(),
                self.fg_def == old(self).fg_def,
                self.bg_def == old(self).bg_def,
                self.palette@ == old(self).palette@,
                self.provider == old(self).provider_spec(),
                codes_state(codes@, old(self).state(), self.palette@, self.fg_def, self.bg_def)
                    == codes_state(codes@.skip(k as int), self.state(), self.palette@, self.fg_def, self.bg_def),
            decreases n - k,
        {
            let ghost st = self.state();
            match codes[k] {
                None => {},
                Some(AnsiEscape::Reset) => {
                    self.reset();
                },
                Some(AnsiEscape::Foreground(color)) => {
                    if (color as usize) < self.palette.len() {
                        self.fg = self.palette[color as usize];
                    }
                },
                Some(AnsiEscape::Background(color)) => {
                    if (color as usize) < self.palette.len() {
                        self.bg = self.palette[color as usize];
                    }
                },
            }
            proof {
                assert(codes@.skip(k as int).drop_first() =~= codes@.skip(k as int + 1));
                assert(codes@.skip(k as int)[0] == codes@[k as int]);
            }
            k = k + 1;
        }
        proof {
            assert(codes@.skip(n as int) =~= Seq::<Option<AnsiEscape>>::empty());
        }
    }

    /// Writes a text, applying the color escapes in it, then restores the
    /// default colors. An `ESC` that does not start a well-formed escape
    /// ends the output.
    pub fn write_str(&mut self, s: &str)
        requires
            old(self).wf(),
        ensures
            final(self).wf(),
            final(self).state() == ({
                let t = text_state(s@, 0, old(self).state(), old(self).provider_spec().cols() as int,
                    old(self).provider_spec().rows() as int, old(self).palette_spec(), old(self).fg_default(),
                    old(self).bg_default());
                (t.0, t.1, old(self).fg_default(), old(self).bg_default())
            }),
            final(self).fg_default() == old(self).fg_default(),
            final(self).bg_default() == old(self).bg_default(),
            final(self).palette_spec() == old(self).palette_spec(),
            final(self).provider_spec().drawn() == old(self).provider_spec().drawn().add(text_draws(s@, 0,
                old(self).state(), old(self).provider_spec().cols() as int, old(self).provider_spec().rows() as int,
                old(self).provider_spec().cell_width() as int, old(self).provider_spec().cell_height() as int,
                old(self).palette_spec(), old(self).fg_default(), old(self).bg_default())),
    {
        let n = s.unicode_len();
        let mut chars: Vec<char> = Vec::new();
        let mut k: usize = 0;
        while k < n
            invariant
                n == s@.len(),
                0 <= k <= n,
                chars@ == s@.take(k as int),
            decreases n - k,
        {
            chars.push(s.get_char(k));
            proof {
                assert(chars@ =~= s@.take(k as int + 1));
            }
            k = k + 1;
        }
        proof {
            assert(chars@ =~= s@);
        }
        let ghost cols = self.provider.cols() as int;
        let ghost rows = self.provider.rows() as int;
        let ghost target = text_state(s@, 0, self.state(), cols, rows, self.palette@, self.fg_def, self.bg_def);
        let ghost cw = self.provider.cell_width() as int;
        let ghost ch = self.provider.cell_height() as int;
        let ghost dtarget = self.provider.drawn().add(
            text_draws(s@, 0, self.state(), cols, rows, cw, ch, self.palette@, self.fg_def, self.bg_def));
        let mut i: usize = 0;
        let mut stop = false;
        while i < n && !stop
            invariant
                n == chars@.len(),
                chars@ == s@,
                0 <= i <= n,
                self.wf(),
                cols == self.provider.cols(),
                rows == self.provider.rows(),
                self.provider.cell_width() == old(self).provider_spec().cell_width(),
                self.provider.cell_height() == old(self).provider_spec().cell_height(),
                self.fg_def == old(self).fg_def,
                self.bg_def == old(self).bg_def,
                self.palette@ == old(self).palette@,
                target == (if stop { self.state() } else {
                    text_state(s@, i as int, self.state(), cols, rows, self.palette@, self.fg_def, self.bg_def)
                }),
                cw == self.provider.cell_width(),
                ch == self.provider.cell_height(),
                dtarget == (if stop { self.provider.drawn() } else {
                    self.provider.drawn().add(text_draws(s@, i as int, self.state(), cols, rows, cw, ch,
                        self.palette@, self.fg_def, self.bg_def))
                }),
            decreases n - i + (if stop { 0int } else { 1int }),
        {
            let c = chars[i];
            if c == '\x1b' {
                if i + 1 >= n || chars[i + 1] != '[' {
                    stop = true;
                } else {
                    match Ansi::parse_at(chars.as_slice(), i + 2) {
                        None => {
                            stop = true;
                        },
                        Some((codes, end)) => {
                            proof {
                                crate::ansi::lemma_params_end(chars@, i + 2);
                            }
                            self.apply_codes(&codes);
                            i = end + 1;
                        },
                    }
                }
            } else {
                let ghost d0 = self.provider.drawn();
                let ghost st0 = self.state();
                self.write_car(c);
                proof {
                    let cd = char_draws(st0, c, cols, rows, cw, ch);
                    let rest = text_draws(s@, i + 1, self.state(), cols, rows, cw, ch, self.palette@, self.fg_def,
                        self.bg_def);
                    assert(d0.add(cd).add(rest) =~= d0.add(cd.add(rest)));
                }
                i = i + 1;
            }
        }
        proof {
            if !stop {
                assert(i == n);
            }
        }
        self.reset();
    }
}

/// Index in a row-major pixel buffer `w` pixels wide of the pixel at
/// offset (`cc`, `r`) from (`x`, `y`).
pub open spec fn pix(x: int, y: int, w: int, r: int, cc: int) -> int {
    (y + r) * w + x + cc
}

/// Whether the glyph of `c` in an 8x16 bitmap font sets the pixel at row
/// `r`, column `cc` (most significant bit leftmost).
pub open spec fn glyph_bit(font: Seq<u8>, c: char, r: int, cc: int) -> bool {
    (font[16 * ((c as u32) as int) + r] >> ((7 - cc) as u8)) & 1 == 1
}

/// The pixel index lies in the 8x16 cell at (`x`, `y`).
pub open spec fn in_cell(idx: int, x: int, y: int, w: int) -> bool {
    exists|r: int, cc: int| 0 <= r < 16 && 0 <= cc < 8 && idx == #[trigger] pix(x, y, w, r, cc)
}

/// A framebuffer image in memory that a terminal draws into with an 8x16
/// bitmap font.
pub struct VideoDevice {
    pub mode: VideoMode,
    pub buffer: Vec<u32>,
    pub font: Vec<u8>,
    pub drawn_log: Ghost<Seq<Draw>>,
}

proof fn lemma_pix_bounds(x: int, y: int, w: int, h: int, r: int, cc: int)
    requires
        0 <= x,
        0 <= y,
        x + 8 <= w,
        y + 16 <= h,
        0 <= r < 16,
        0 <= cc < 8,
    ensures
        0 <= pix(x, y, w, r, cc) < w * h,
        pix(x, y, w, r, cc) == (y + r) * w + (x + cc),
{
    assert((y + r) * w + (x + cc) < (y + r + 1) * w) by (nonlinear_arith)
        requires x + cc < w;
    assert((y + r + 1) * w <= h * w) by (nonlinear_arith)
        requires y + r + 1 <= h, 0 <= w;
    assert(h * w == w * h) by (nonlinear_arith);
    assert(0 <= (y + r) * w) by (nonlinear_arith)
        requires 0 <= y + r, 0 <= w;
}

proof fn lemma_pix_injective(x: int, y: int, w: int, r1: int, c1: int, r2: int, c2: int)
    requires
        0 <= x,
        x + 8 <= w,
        0 <= r1 < 16,
        0 <= c1 < 8,
        0 <= r2 < 16,
        0 <= c2 < 8,
        pix(x, y, w, r1, c1) == pix(x, y, w, r2, c2),
    ensures
        r1 == r2 && c1 == c2,
{
    if r1 < r2 {
        assert((y + r1) * w + w <= (y + r2) * w) by (nonlinear_arith)
            requires r1 + 1 <= r2, 0 <= w;
    } else if r2 < r1 {
        assert((y + r2) * w + w <= (y + r1) * w) by (nonlinear_arith)
            requires r2 + 1 <= r1, 0 <= w;
    }
}

impl VideoDevice {
    /// A black image of `mode`'s size.
    pub fn new(mode: &VideoMode, font: Vec<u8>) -> (r: VideoDevice)
        requires
            mode.width * mode.height <= usize::MAX,
        ensures
            r.mode == *mode,
            r.font@ == font@,
            r.buffer@ == Seq::new((mode.width * mode.height) as nat, |i: int| 0u32),
    {
        let buffer = vec![0u32; mode.width * mode.height];
        assert(buffer@ =~= Seq::new((mode.width * mode.height) as nat, |i: int| 0u32));
        VideoDevice { mode: *mode, buffer, font, drawn_log: Ghost(Seq::empty()) }
    }

    /// Copies the image to the display's framebuffer.
    pub fn flush(&self, framebuffer: &mut [u32])
        requires
            old(framebuffer)@.len() == self.buffer@.len(),
        ensures
            final(framebuffer)@ == self.buffer@,
    {
        let n = self.buffer.len();
        let mut i: usize = 0;
        while i < n
            invariant
                n == self.buffer@.len(),
                framebuffer@.len() == n,
                0 <= i <= n,
                forall|k: int| 0 <= k < i ==> framebuffer@[k] == self.buffer@[k],
            decreases n - i,
        {
            framebuffer[i] = self.buffer[i];
            i = i + 1;
        }
        assert(framebuffer@ =~= self.buffer@);
    }
}

impl TerminalProvider for VideoDevice {
    open spec fn cols(&self) -> usize {
        self.mode.width / 8
    }

    open spec fn rows(&self) -> usize {
        self.mode.height / 16
    }

    open spec fn cell_width(&self) -> usize {
        8
    }

    open spec fn cell_height(&self) -> usize {
        16
    }

    open spec fn drawn(&self) -> Seq<Draw> {
        self.drawn_log@
    }

    fn get_width(&self) -> (r: usize) {
        self.mode.width / 8
    }

    fn get_height(&self) -> (r: usize) {
        self.mode.height / 16
    }

    fn get_char_width(&self) -> (r: usize) {
        8
    }

    fn get_char_height(&self) -> (r: usize) {
        16
    }

    /// Paints the glyph's cell when it fits on the image and the font has
    /// the glyph: set bits in `fg`, clear bits in `bg`.
    fn draw_char(&mut self, x: usize, y: usize, character: char, fg: u32, bg: u32)
        ensures
            final(self).mode == old(self).mode,
            final(self).font@ == old(self).font@,
            final(self).buffer@.len() == old(self).buffer@.len(),
            ({
                let w = old(self).mode.width as int;
                let h = old(self).mode.height as int;
                let drawn = old(self).buffer@.len() == w * h && x + 8 <= w && y + 16 <= h
                    && 16 * ((character as u32) as int) + 16 <= old(self).font@.len();
                &&& !drawn ==> final(self).buffer@ == old(self).buffer@
                &&& drawn ==> forall|idx: int| 0 <= idx < old(self).buffer@.len()
                    && !in_cell(idx, x as int, y as int, w) ==> final(self).buffer@[idx] == old(self).buffer@[idx]
                &&& drawn ==> forall|r: int, cc: int| 0 <= r < 16 && 0 <= cc < 8
                    ==> final(self).buffer@[#[trigger] pix(x as int, y as int, w, r, cc)]
                        == (if glyph_bit(old(self).font@, character, r, cc) { fg } else { bg })
            }),
    {
        self.drawn_log = Ghost(self.drawn_log@.push((x as int, y as int, character, fg, bg)));
        let w = self.mode.width;
        let h = self.mode.height;
        let n = self.buffer.len();
        match w.checked_mul(h) {
            Some(size) => {
                if n != size {
                    return;
                }
            },
            None => {
                return;
            },
        }
        if w < 8 || x > w - 8 || h < 16 || y > h - 16 {
            return;
        }
        let code = character as u32;
        if code as u64 > (self.font.len() / 16) as u64 {
            return;
        }
        let glyph = code as usize;
        let font_i = 16 * glyph;
        if self.font.len() - font_i < 16 {
            return;
        }
        let ghost b0 = self.buffer@;
        let mut row: usize = 0;
        while row < 16
            invariant
                w == self.mode.width,
                h == self.mode.height,
                self.mode == old(self).mode,
                self.font@ == old(self).font@,
                self.drawn_log@ == old(self).drawn_log@.push((x as int, y as int, character, fg, bg)),
                b0 == old(self).buffer@,
                self.buffer@.len() == w * h,
                w * h <= usize::MAX,
                x + 8 <= w,
                y + 16 <= h,
                font_i == 16 * ((character as u32) as int),
                font_i + 16 <= self.font@.len(),
                0 <= row <= 16,
                forall|idx: int| 0 <= idx < self.buffer@.len() && !in_cell(idx, x as int, y as int, w as int)
                    ==> self.buffer@[idx] == b0[idx],
                forall|r: int, cc: int| 0 <= r < 16 && 0 <= cc < 8 && r >= row
                    ==> self.buffer@[#[trigger] pix(x as int, y as int, w as int, r, cc)] == b0[pix(x as int, y as int, w as int, r, cc)],
                forall|r: int, cc: int| 0 <= r < row && 0 <= cc < 8
                    ==> self.buffer@[#[trigger] pix(x as int, y as int, w as int, r, cc)]
                        == (if glyph_bit(self.font@, character, r, cc) { fg } else { bg }),
            decreases 16 - row,
        {
            let row_data = self.font[font_i + row];
            let mut col: usize = 0;
            while col < 8
                invariant
                    w == self.mode.width,
                    h == self.mode.height,
                    self.mode == old(self).mode,
                    self.font@ == old(self).font@,
                    self.drawn_log@ == old(self).drawn_log@.push((x as int, y as int, character, fg, bg)),
                    b0 == old(self).buffer@,
                    self.buffer@.len() == w * h,
                    w * h <= usize::MAX,
                    x + 8 <= w,
                    y + 16 <= h,
                    font_i == 16 * ((character as u32) as int),
                    font_i + 16 <= self.font@.len(),
                    0 <= row < 16,
                    0 <= col <= 8,
                    row_data == self.font@[font_i + row],
                    forall|idx: int| 0 <= idx < self.buffer@.len() && !in_cell(idx, x as int, y as int, w as int)
                        ==> self.buffer@[idx] == b0[idx],
                    forall|r: int, cc: int| 0 <= r < 16 && 0 <= cc < 8 && (r > row || (r == row && cc >= col))
                        ==> self.buffer@[#[trigger] pix(x as int, y as int, w as int, r, cc)] == b0[pix(x as int, y as int, w as int, r, cc)],
                    forall|r: int, cc: int| 0 <= r < 16 && 0 <= cc < 8 && (r < row || (r == row && cc < col))
                        ==> self.buffer@[#[trigger] pix(x as int, y as int, w as int, r, cc)]
                            == (if glyph_bit(self.font@, character, r, cc) { fg } else { bg }),
                decreases 8 - col,
            {
                proof {
                    lemma_pix_bounds(x as int, y as int, w as int, h as int, row as int, col as int);
                }
                let idx = (y + row) * w + x + col;
                let bit = (row_data >> ((7 - col) as u8)) & 1;
                let ghost before = self.buffer@;
                if bit == 1 {
                    self.buffer.set(idx, fg);
                } else {
                    self.buffer.set(idx, bg);
                }
                proof {
                    assert(idx == pix(x as int, y as int, w as int, row as int, col as int));
                    assert forall|r: int, cc: int| 0 <= r < 16 && 0 <= cc < 8
                        && pix(x as int, y as int, w as int, r, cc) == idx implies r == row && cc == col by {
                        lemma_pix_injective(x as int, y as int, w as int, r, cc, row as int, col as int);
                    }
                    assert forall|i2: int| 0 <= i2 < self.buffer@.len() && !in_cell(i2, x as int, y as int, w as int)
                        implies self.buffer@[i2] == b0[i2] by {
                        if i2 == idx {
                            assert(in_cell(i2, x as int, y as int, w as int));
                        }
                    }
                    assert forall|r: int, cc: int| 0 <= r < 16 && 0 <= cc < 8 && (r > row || (r == row && cc
                        >= col + 1)) implies self.buffer@[#[trigger] pix(x as int, y as int, w as int, r, cc)]
                        == b0[pix(x as int, y as int, w as int, r, cc)] by {
                        lemma_pix_bounds(x as int, y as int, w as int, h as int, r, cc);
                        if pix(x as int, y as int, w as int, r, cc) == idx {
                            lemma_pix_injective(x as int, y as int, w as int, r, cc, row as int, col as int);
                        }
                        assert(before[pix(x as int, y as int, w as int, r, cc)] == b0[pix(x as int, y as int, w as int, r, cc)]);
                    }
                    assert forall|r: int, cc: int| 0 <= r < 16 && 0 <= cc < 8 && (r < row || (r == row && cc
                        < col + 1)) implies self.buffer@[#[trigger] pix(x as int, y as int, w as int, r, cc)]
                        == (if glyph_bit(self.font@, character, r, cc) { fg } else { bg }) by {
                        lemma_pix_bounds(x as int, y as int, w as int, h as int, r, cc);
                        if pix(x as int, y as int, w as int, r, cc) == idx {
                            lemma_pix_injective(x as int, y as int, w as int, r, cc, row as int, col as int);
                        } else {
                            assert(before[pix(x as int, y as int, w as int, r, cc)]
                                == (if glyph_bit(self.font@, character, r, cc) { fg } else { bg }));
                        }
                    }
                }
                col = col + 1;
            }
            row = row + 1;
        }
    }
}

} // verus!
