//! The screen of the graphics mode that the game runs in, and the text that
//! is printed on it.
use vstd::prelude::*;
use vstd::slice::slice_subrange;
use vstd::string::StringSliceAdditionalSpecFns;

verus! {

/// The horizontal resolution of the desired mode.
pub const NO_OF_PIXELS_IN_A_ROW: usize = 640;

/// The vertical resolution of the desired mode.
pub const NO_OF_PIXELS_IN_A_COLUMN: usize = 480;

/// The number of pixels on the screen.
pub const NO_OF_PIXELS: usize = 307200;

/// The width and the height of a character, in pixels.
pub const CHAR_SIZE: usize = 16;

/// The number of characters that a font describes.
pub const NO_OF_GLYPHS: usize = 43;

/// A description of the color channels of a pixel in the framebuffer.
#[derive(Debug, Clone, Copy, PartialEq, Eq, Structural)]
pub struct Pixel {
    /// The bits representing the blue color intensity in this pixel
    pub blue: u8,
    /// The bits representing the green color intensity in this pixel
    pub green: u8,
    /// The bits representing the red color intensity in this pixel
    pub red: u8,
    /// Unused bits
    pub reserved: u8,
}

/// Black: all 0s. The background of text.
pub open spec fn black() -> Pixel {
    Pixel { red: 0, green: 0, blue: 0, reserved: 0 }
}

/// Yellow: red and green. The foreground of text.
pub open spec fn yellow() -> Pixel {
    Pixel { red: 255, green: 255, blue: 0, reserved: 0 }
}

/// The place of the pixel at (`row`, `col`) among the pixels of the screen,
/// which lie row after row.
pub open spec fn pixel_index(row: int, col: int) -> int {
    row * NO_OF_PIXELS_IN_A_ROW + col
}

/// Whether the pixel at `index` lies in the rectangle of `height` rows and
/// `width` columns whose top left corner is `pos`, a row and a column.
pub open spec fn in_rect(index: int, pos: (usize, usize), height: int, width: int) -> bool {
    let row = index / (NO_OF_PIXELS_IN_A_ROW as int);
    let col = index % (NO_OF_PIXELS_IN_A_ROW as int);
    pos.0 <= row < pos.0 + height && pos.1 <= col < pos.1 + width
}

/// The pixels on the screen.
pub struct Screen {
    pixels: Vec<Pixel>,
}

impl View for Screen {
    type V = Seq<Pixel>;

    /// The pixels, row after row.
    closed spec fn view(&self) -> Seq<Pixel> {
        self.pixels@
    }
}

impl Screen {
    /// The invariant of the screen: it has all its pixels.
    pub open spec fn wf(&self) -> bool {
        self@.len() == NO_OF_PIXELS
    }

    /// The pixel at (`row`, `col`).
    pub open spec fn at(&self, row: int, col: int) -> Pixel {
        self@[pixel_index(row, col)]
    }

    /// A screen that is all black.
    pub fn new() -> (screen: Screen)
        ensures
            screen.wf(),
            forall|i: int| 0 <= i < NO_OF_PIXELS ==> screen@[i] == black(),
    {
        let mut pixels: Vec<Pixel> = Vec::new();
        let mut i: usize = 0;
        while i < NO_OF_PIXELS
            invariant
                i <= NO_OF_PIXELS,
                pixels@.len() == i,
                forall|j: int| 0 <= j < i ==> pixels@[j] == black(),
            decreases NO_OF_PIXELS - i,
        {
            pixels.push(Pixel { red: 0, green: 0, blue: 0, reserved: 0 });
            i += 1;
        }
        Screen { pixels }
    }

    /// The pixel at (`row`, `col`).
    pub fn pixel(&self, row: usize, col: usize) -> (pixel: Pixel)
        requires
            self.wf(),
            row < NO_OF_PIXELS_IN_A_COLUMN,
            col < NO_OF_PIXELS_IN_A_ROW,
        ensures
            pixel == self.at(row as int, col as int),
    {
        self.pixels[row * NO_OF_PIXELS_IN_A_ROW + col]
    }

    /// Sets the pixel at (`row`, `col`).
    pub fn set_pixel(&mut self, row: usize, col: usize, pixel: Pixel)
        requires
            old(self).wf(),
            row < NO_OF_PIXELS_IN_A_COLUMN,
            col < NO_OF_PIXELS_IN_A_ROW,
        ensures
            final(self)@ == old(self)@.update(pixel_index(row as int, col as int), pixel),
            final(self).wf(),
    {
        self.pixels.set(row * NO_OF_PIXELS_IN_A_ROW + col, pixel);
    }

    /// The pixels of row `idx`.
    pub fn index(&self, idx: usize) -> (row: &[Pixel])
        requires
            self.wf(),
            idx < NO_OF_PIXELS_IN_A_COLUMN,
        ensures
            row@ == self@.subrange(
                pixel_index(idx as int, 0),
                pixel_index(idx as int, 0) + NO_OF_PIXELS_IN_A_ROW,
            ),
    {
        let start = idx * NO_OF_PIXELS_IN_A_ROW;
        slice_subrange(self.pixels.as_slice(), start, start + NO_OF_PIXELS_IN_A_ROW)
    }
}

/// The pixels after the character that `glyph` describes is printed at
/// `pos`: yellow where the description is set, black where it is not, and
/// outside the character's square what was there.
pub open spec fn with_char(pixels: Seq<Pixel>, glyph: [[bool; 16]; 16], pos: (usize, usize)) -> Seq<
    Pixel,
> {
    Seq::new(
        pixels.len(),
        |k: int|
            if in_rect(k, pos, CHAR_SIZE as int, CHAR_SIZE as int) {
                if glyph@[k / (NO_OF_PIXELS_IN_A_ROW as int) - pos.0]@[k % (
                NO_OF_PIXELS_IN_A_ROW as int) - pos.1] {
                    yellow()
                } else {
                    black()
                }
            } else {
                pixels[k]
            },
    )
}

/// Print the character described by `font_description` to the screen at
/// position `curr_screen_pos`, a row and a column.
pub fn print_char(
    screen: &mut Screen,
    font_description: &[[bool; 16]; 16],
    curr_screen_pos: (usize, usize),
)
    requires
        old(screen).wf(),
        curr_screen_pos.0 + CHAR_SIZE <= NO_OF_PIXELS_IN_A_COLUMN,
        curr_screen_pos.1 + CHAR_SIZE <= NO_OF_PIXELS_IN_A_ROW,
    ensures
        final(screen).wf(),
        final(screen)@ == with_char(old(screen)@, *font_description, curr_screen_pos),
{
    let ghost before = screen@;
    let mut i: usize = 0;
    while i < CHAR_SIZE
        invariant
            i <= CHAR_SIZE,
            screen.wf(),
            before.len() == NO_OF_PIXELS,
            curr_screen_pos.0 + CHAR_SIZE <= NO_OF_PIXELS_IN_A_COLUMN,
            curr_screen_pos.1 + CHAR_SIZE <= NO_OF_PIXELS_IN_A_ROW,
            forall|k: int|
                0 <= k < NO_OF_PIXELS ==> #[trigger] screen@[k] == if in_rect(
                    k,
                    curr_screen_pos,
                    i as int,
                    CHAR_SIZE as int,
                ) {
                    with_char(before, *font_description, curr_screen_pos)[k]
                } else {
                    before[k]
                },
        decreases CHAR_SIZE - i,
    {
        let mut j: usize = 0;
        while j < CHAR_SIZE
            invariant
                i < CHAR_SIZE,
                j <= CHAR_SIZE,
                screen.wf(),
                before.len() == NO_OF_PIXELS,
                curr_screen_pos.0 + CHAR_SIZE <= NO_OF_PIXELS_IN_A_COLUMN,
                curr_screen_pos.1 + CHAR_SIZE <= NO_OF_PIXELS_IN_A_ROW,
                forall|k: int|
                    0 <= k < NO_OF_PIXELS ==> #[trigger] screen@[k] == if in_rect(
                        k,
                        curr_screen_pos,
                        i as int,
                        CHAR_SIZE as int,
                    ) || in_rect(k, (( curr_screen_pos.0 + i) as usize, curr_screen_pos.1), 1, j as int) {
                        with_char(before, *font_description, curr_screen_pos)[k]
                    } else {
                        before[k]
                    },
            decreases CHAR_SIZE - j,
        {
            let pixel = if font_description[i][j] {
                // Red and green is yellow (which we're using as our foreground color here)
                Pixel { red: 255, green: 255, blue: 0, reserved: 0 }
            } else {
                // All 0s is black (which we're using as our background here)
                Pixel { red: 0, green: 0, blue: 0, reserved: 0 }
            };
            screen.set_pixel(curr_screen_pos.0 + i, curr_screen_pos.1 + j, pixel);
            j += 1;
        }
        i += 1;
    }
    assert(screen@ =~= with_char(before, *font_description, curr_screen_pos));
}

/// The index into the font of the character that `c` is the code point of.
/// Small letters are printed as big letters, and characters that the font
/// does not have as spaces.
pub open spec fn font_index(c: u8) -> int {
    if c == 32 {
        26
    } else if c == 33 {
        27
    } else if c == 39 {
        39
    } else if c == 44 {
        40
    } else if c == 46 {
        42
    } else if c == 47 {
        41
    } else if 48 <= c <= 57 {
        c - 20
    } else if c == 58 {
        38
    } else if 65 <= c <= 91 {
        c - 65
    } else if 97 <= c <= 123 {
        c - 97
    } else {
        26
    }
}

/// Takes the code point of a character and returns its index into the font.
pub fn char_to_font_index(c: u8) -> (index: usize)
    ensures
        index == font_index(c),
        index < NO_OF_GLYPHS,
    decreases
            if 97 <= c <= 123 {
                1int
            } else {
                0
            },
{
    match c {
        32 => 26,  // Space
        33 => 27,  // Exclamation mark
        39 => 39,  // Apostrophe
        44 => 40,  // Comma
        46 => 42,  // Full stop
        47 => 41,  // Forward slash
        58 => 38,  // Colon
        _ => {
            if 48 <= c && c <= 57 {
                // Digits
                (c - 20) as usize
            } else if 65 <= c && c <= 91 {
                // Big letters
                (c - 65) as usize
            } else if 97 <= c && c <= 123 {
                // Small letters to big letters
                char_to_font_index(c - 32)
            } else {
                // Unrecognized characters should be printed as spaces
                26
            }
        },
    }
}

/// Where the next character goes after one was printed at `pos`: one
/// character to the right, or at the start of the next row of characters
/// when there is no more space on the row.
pub open spec fn next_pos(pos: (usize, usize)) -> (usize, usize) {
    if pos.1 + CHAR_SIZE >= NO_OF_PIXELS_IN_A_ROW {
        ((pos.0 + CHAR_SIZE) as usize, 0)
    } else {
        (pos.0, (pos.1 + CHAR_SIZE) as usize)
    }
}

/// Whether `pos` is a place for a character: on the grid of characters, and
/// on the screen.
pub open spec fn is_char_pos(pos: (usize, usize)) -> bool {
    &&& pos.0 % CHAR_SIZE == 0
    &&& pos.1 % CHAR_SIZE == 0
    &&& pos.0 < NO_OF_PIXELS_IN_A_COLUMN
    &&& pos.1 < NO_OF_PIXELS_IN_A_ROW
}

/// The pixels and the position after `text` is printed from `pos` on, one
/// character after the other, until the text or the screen ends.
pub open spec fn printed(
    pixels: Seq<Pixel>,
    font: Seq<[[bool; 16]; 16]>,
    text: Seq<u8>,
    pos: (usize, usize),
) -> (Seq<Pixel>, (usize, usize))
    decreases text.len(),
{
    if text.len() == 0 || pos.0 >= NO_OF_PIXELS_IN_A_COLUMN {
        (pixels, pos)
    } else {
        printed(
            with_char(pixels, font[font_index(text[0])], pos),
            font,
            text.drop_first(),
            next_pos(pos),
        )
    }
}

/// Prints the string `s` on screen, from position `screen_pos` on, in the
/// characters of `font`, and returns the position after the last character.
/// Printing stops when there are no more rows.
pub fn print_str(
    screen: &mut Screen,
    font: &[[[bool; 16]; 16]],
    s: &str,
    screen_pos: (usize, usize),
) -> (new_pos: (usize, usize))
    requires
        old(screen).wf(),
        font@.len() >= NO_OF_GLYPHS,
        is_char_pos(screen_pos),
    ensures
        final(screen).wf(),
        (final(screen)@, new_pos) == printed(old(screen)@, font@, s.spec_bytes(), screen_pos),
        new_pos.0 % CHAR_SIZE == 0,
        new_pos.1 % CHAR_SIZE == 0,
        new_pos.0 <= NO_OF_PIXELS_IN_A_COLUMN,
        new_pos.1 < NO_OF_PIXELS_IN_A_ROW,
{
    let bytes = s.as_bytes();
    // The position of the next character
    let mut pos = screen_pos;
    let mut n: usize = 0;
    assert(bytes@.subrange(0, bytes@.len() as int) =~= bytes@);
    // Iterating over the character's code points
    while n < bytes.len() && pos.0 < NO_OF_PIXELS_IN_A_COLUMN
        invariant
            n <= bytes@.len(),
            screen.wf(),
            font@.len() >= NO_OF_GLYPHS,
            pos.0 % CHAR_SIZE == 0,
            pos.1 % CHAR_SIZE == 0,
            pos.0 <= NO_OF_PIXELS_IN_A_COLUMN,
            pos.1 < NO_OF_PIXELS_IN_A_ROW,
            printed(old(screen)@, font@, bytes@, screen_pos) == printed(
                screen@,
                font@,
                bytes@.subrange(n as int, bytes@.len() as int),
                pos,
            ),
        decreases bytes@.len() - n,
    {
        let ghost rest = bytes@.subrange(n as int, bytes@.len() as int);
        assert(rest.drop_first() =~= bytes@.subrange(n + 1, bytes@.len() as int));
        let c = bytes[n];
        print_char(screen, &font[char_to_font_index(c)], pos);
        // Advance the screen position to the next position on the row
        pos.1 += CHAR_SIZE;
        // If there is no more space on the row
        if pos.1 >= NO_OF_PIXELS_IN_A_ROW {
            // Advance to the next row
            pos.0 += CHAR_SIZE;
            // Start from the first space on this new row
            pos.1 = 0;
        }
        n += 1;
    }
    assert(bytes@.subrange(bytes@.len() as int, bytes@.len() as int).len() == 0);
    pos
}

/// Returned by the firmware's functions to indicate their success or
/// failure.
pub type Status = u64;

/// The status code that UEFI defines as a success.
pub const STATUS_SUCCESS: Status = 0;

/// This bit is always set in the status code when a UEFI function returns
/// an error status code.
pub const ERROR_BIT: Status = 0x8000_0000_0000_0000;

/// The status that is returned when a buffer-too-small error occurs during
/// the execution of a UEFI function.
pub const STATUS_BUFFER_TOO_SMALL: Status = 0x8000_0000_0000_0005;

/// The extra memory that is asked for on top of the size of the memory map.
pub const ONE_KIB: usize = 1024;

/// A number that uniquely identifies a protocol.
#[derive(Debug, Clone, Copy)]
pub struct Guid {
    pub first_chunk: u32,
    pub second_chunk: u16,
    pub third_chunk: u16,
    pub other_chunks: [u8; 8],
}

/// The Graphics Output Protocol (GOP) GUID.
pub fn gop_guid() -> (guid: Guid)
    ensures
        guid.first_chunk == 0x9042a9de,
        guid.second_chunk == 0x23dc,
        guid.third_chunk == 0x4a38,
        guid.other_chunks@ == seq![0x96u8, 0xfb, 0x7a, 0xde, 0xd0, 0x80, 0x51, 0x6a],
{
    let guid = Guid {
        first_chunk: 0x9042a9de,
        second_chunk: 0x23dc,
        third_chunk: 0x4a38,
        other_chunks: [0x96, 0xfb, 0x7a, 0xde, 0xd0, 0x80, 0x51, 0x6a],
    };
    assert(guid.other_chunks@ =~= seq![0x96u8, 0xfb, 0x7a, 0xde, 0xd0, 0x80, 0x51, 0x6a]);
    guid
}

/// The kinds of memory that the firmware knows.
#[derive(Debug, Clone, Copy, PartialEq, Eq, Structural)]
pub enum MemType {
    EfiReservedMemoryType,
    EfiLoaderCode,
    EfiLoaderData,
    EfiBootServicesCode,
    EfiBootServicesData,
    EfiRuntimeServicesCode,
    EfiRuntimeServicesData,
    EfiConventionalMemory,
    EfiUnusableMemory,
    EfiACPIReclaimMemory,
    EfiACPIMemoryNVS,
    EfiMemoryMappedIO,
    EfiMemoryMappedIOPortSpace,
    EfiPalCode,
    EfiPersistentMemory,
    EfiMaxMemoryType,
}

impl MemType {
    /// The number that the firmware knows the kind of memory by: its place
    /// in the list of kinds, from 0.
    pub open spec fn spec_code(self) -> u32 {
        match self {
            MemType::EfiReservedMemoryType => 0,
            MemType::EfiLoaderCode => 1,
            MemType::EfiLoaderData => 2,
            MemType::EfiBootServicesCode => 3,
            MemType::EfiBootServicesData => 4,
            MemType::EfiRuntimeServicesCode => 5,
            MemType::EfiRuntimeServicesData => 6,
            MemType::EfiConventionalMemory => 7,
            MemType::EfiUnusableMemory => 8,
            MemType::EfiACPIReclaimMemory => 9,
            MemType::EfiACPIMemoryNVS => 10,
            MemType::EfiMemoryMappedIO => 11,
            MemType::EfiMemoryMappedIOPortSpace => 12,
            MemType::EfiPalCode => 13,
            MemType::EfiPersistentMemory => 14,
            MemType::EfiMaxMemoryType => 15,
        }
    }

    /// The number that the firmware knows the kind of memory by.
    #[verifier::when_used_as_spec(spec_code)]
    pub fn code(self) -> (code: u32)
        ensures
            code == self.spec_code(),
    {
        match self {
            MemType::EfiReservedMemoryType => 0,
            MemType::EfiLoaderCode => 1,
            MemType::EfiLoaderData => 2,
            MemType::EfiBootServicesCode => 3,
            MemType::EfiBootServicesData => 4,
            MemType::EfiRuntimeServicesCode => 5,
            MemType::EfiRuntimeServicesData => 6,
            MemType::EfiConventionalMemory => 7,
            MemType::EfiUnusableMemory => 8,
            MemType::EfiACPIReclaimMemory => 9,
            MemType::EfiACPIMemoryNVS => 10,
            MemType::EfiMemoryMappedIO => 11,
            MemType::EfiMemoryMappedIOPortSpace => 12,
            MemType::EfiPalCode => 13,
            MemType::EfiPersistentMemory => 14,
            MemType::EfiMaxMemoryType => 15,
        }
    }
}

/// Defines how to interpret the bits that represent a single pixel.
#[derive(Debug, Clone, Copy, PartialEq, Eq, Structural)]
pub enum PixelFormat {
    RedGreenBlueReserved,
    BlueGreenRedReserved,
    BitMask,
    BltOnly,
}

/// Tells how to interpret the bits in a pixel when the pixel format is
/// `PixelFormat::BitMask`: the bits set in each field are the bits of that
/// color.
#[derive(Debug, Clone, Copy, PartialEq, Eq, Structural)]
pub struct PixelBitmask {
    pub red_mask: u32,
    pub green_mask: u32,
    pub blue_mask: u32,
    pub reserved: u32,
}

/// What the firmware tells of a graphics mode.
#[derive(Debug, Clone, Copy, PartialEq, Eq, Structural)]
pub struct GraphicsModeInfo {
    /// The UEFI version number of this data structure
    pub version: u32,
    /// The number of pixels in one horizontal row of the screen
    pub horizontal_resolution: u32,
    /// The number of pixels in one vertical column of the screen
    pub vertical_resolution: u32,
    /// How the bits of a single pixel should be interpreted
    pub pixel_format: PixelFormat,
    /// Some value whose meaning depends on the value of `pixel_format`
    pub pixel_info: PixelBitmask,
    /// The number of pixels in one line of video memory
    pub pixels_per_scan_line: u32,
}

/// Gives info about the currently set and other available graphics modes.
#[derive(Debug, Clone, Copy, PartialEq, Eq, Structural)]
pub struct GraphicsMode {
    /// The number of modes that can be queried and set
    pub max_mode: u32,
    /// The number of the current mode, which is below `max_mode`
    pub mode: u32,
    /// Size of the mode info
    pub size_of_info: usize,
    /// The starting address of the graphics framebuffer
    pub framebuffer_base: u64,
    /// The size of the framebuffer in bytes
    pub framebuffer_size: usize,
}

/// Whether a mode is the one that the game runs in: 640 by 480 pixels, of
/// blue, green, red and a reserved byte.
pub open spec fn is_desired(info: GraphicsModeInfo) -> bool {
    &&& info.horizontal_resolution == NO_OF_PIXELS_IN_A_ROW
    &&& info.vertical_resolution == NO_OF_PIXELS_IN_A_COLUMN
    &&& info.pixel_format == PixelFormat::BlueGreenRedReserved
}

/// Whether a mode is the one that the game runs in.
pub fn is_desired_mode(info: &GraphicsModeInfo) -> (b: bool)
    ensures
        b == is_desired(*info),
{
    info.horizontal_resolution == 640 && info.vertical_resolution == 480 && match info.pixel_format {
        PixelFormat::BlueGreenRedReserved => true,
        _ => false,
    }
}

/// What to do next in the search for the desired mode.
#[derive(Debug, Clone, Copy, PartialEq, Eq)]
pub enum ModeSearch {
    /// Ask the firmware about the mode with this number
    Query(u32),
    /// The search is over: set the mode with this number
    SetMode(u32),
    /// The search failed, with this message
    Fail(&'static str),
}

/// The message for a mode that the firmware gave no information about.
pub const FAILED_TO_QUERY: &'static str = "Failed to query mode\n";

/// The message for a screen that does not have the desired mode.
pub const FAILED_TO_FIND: &'static str = "Failed to find desired mode\n";

/// The first step of the search among `max_mode` modes, whose numbers are
/// below `max_mode`: ask about mode 0, or, where there is no mode to ask
/// about, set mode 0.
pub fn start_mode_search(max_mode: u32) -> (step: ModeSearch)
    ensures
        step == if max_mode == 0 {
            ModeSearch::SetMode(0)
        } else {
            ModeSearch::Query(0)
        },
{
    if max_mode == 0 {
        ModeSearch::SetMode(0)
    } else {
        ModeSearch::Query(0)
    }
}

/// The step that follows the firmware's answer about mode `mode_number`:
/// fail when the firmware gave no information, set the mode when it is the
/// desired one, fail when it is not and was the last one, and ask about the
/// next mode otherwise.
pub fn continue_mode_search(
    mode_number: u32,
    max_mode: u32,
    queried: Result<GraphicsModeInfo, Status>,
) -> (step: ModeSearch)
    requires
        mode_number < max_mode,
    ensures
        step == match queried {
            Err(_) => ModeSearch::Fail(FAILED_TO_QUERY),
            Ok(info) => if is_desired(info) {
                ModeSearch::SetMode(mode_number)
            } else if mode_number == max_mode - 1 {
                ModeSearch::Fail(FAILED_TO_FIND)
            } else {
                ModeSearch::Query((mode_number + 1) as u32)
            },
        },
{
    match queried {
        Err(_) => ModeSearch::Fail(FAILED_TO_QUERY),
        Ok(info) => {
            // Looking for our desired mode
            if is_desired_mode(&info) {
                ModeSearch::SetMode(mode_number)
            } else if mode_number == max_mode - 1 {
                // The desired mode wasn't found
                ModeSearch::Fail(FAILED_TO_FIND)
            } else {
                ModeSearch::Query(mode_number + 1)
            }
        },
    }
}

/// Turns a status that the firmware returned into a result: the value on
/// success, the status on any other.
pub fn status_to_result<T>(status: Status, value: T) -> (r: Result<T, Status>)
    ensures
        r == if status == STATUS_SUCCESS {
            Ok::<T, Status>(value)
        } else {
            Err::<T, Status>(status)
        },
{
    if status == STATUS_SUCCESS {
        Ok(value)
    } else {
        Err(status)
    }
}

/// What the firmware is asked for on the way out of the Boot Services.
#[derive(Debug, Clone, Copy, PartialEq, Eq, Structural)]
pub enum ExitStage {
    /// The size of the memory map
    MapSize,
    /// Memory to hold the memory map
    Pool,
    /// The memory map itself
    MemMap,
    /// The exit
    Exit,
}

/// What to do next on the way out of the Boot Services.
#[derive(Debug, Clone, Copy, PartialEq, Eq)]
pub enum ExitStep {
    /// Allocate this many bytes of Boot Services data for the memory map
    AllocPool(usize),
    /// Get the memory map into the memory that was allocated
    GetMap,
    /// Exit the Boot Services with the key of the memory map
    Exit,
    /// The Boot Services are terminated, or the firmware refused a step
    Done(Result<(), Status>),
}

/// The step that follows the firmware's answer at `stage`. The size of the
/// memory map is asked for with a buffer of no size, so the firmware is
/// expected to answer that the buffer is too small, and to tell the size in
/// `mem_map_size`: one kilobyte more is then allocated. Every later answer
/// must be a success. Any other answer ends the exit with that status.
pub fn exit_boot_services_step(stage: ExitStage, status: Status, mem_map_size: usize) -> (step:
    ExitStep)
    requires
        stage == ExitStage::MapSize ==> mem_map_size + ONE_KIB <= usize::MAX,
    ensures
        step == match stage {
            ExitStage::MapSize => if status == STATUS_BUFFER_TOO_SMALL {
                ExitStep::AllocPool((mem_map_size + ONE_KIB) as usize)
            } else {
                ExitStep::Done(Err(status))
            },
            ExitStage::Pool => if status == STATUS_SUCCESS {
                ExitStep::GetMap
            } else {
                ExitStep::Done(Err(status))
            },
            ExitStage::MemMap => if status == STATUS_SUCCESS {
                ExitStep::Exit
            } else {
                ExitStep::Done(Err(status))
            },
            ExitStage::Exit => if status == STATUS_SUCCESS {
                ExitStep::Done(Ok(()))
            } else {
                ExitStep::Done(Err(status))
            },
        },
{
    match stage {
        ExitStage::MapSize => {
            if status != STATUS_BUFFER_TOO_SMALL {
                return ExitStep::Done(Err(status));
            }
            // Allocating an extra kilobyte because the spec
            // recommends that we allocate extra memory
            ExitStep::AllocPool(mem_map_size + ONE_KIB)
        },
        ExitStage::Pool => {
            if status != STATUS_SUCCESS {
                return ExitStep::Done(Err(status));
            }
            ExitStep::GetMap
        },
        ExitStage::MemMap => {
            if status != STATUS_SUCCESS {
                return ExitStep::Done(Err(status));
            }
            ExitStep::Exit
        },
        ExitStage::Exit => {
            if status != STATUS_SUCCESS {
                return ExitStep::Done(Err(status));
            }
            ExitStep::Done(Ok(()))
        },
    }
}

/// The code unit of the digit `n`.
pub open spec fn digit_code(n: int) -> u16 {
    (48 + n) as u16
}

/// The code units of the decimal digits of `n`, most significant first.
pub open spec fn digit_codes(n: nat) -> Seq<u16>
    decreases n,
{
    if n >= 10 {
        digit_codes(n / 10).push(digit_code((n % 10) as int))
    } else {
        seq![digit_code(n as int)]
    }
}

/// The string that prints a single digit in the range 0..=9: the code unit
/// of the digit, and the 0 that ends the string.
pub fn printdigit(n: u32) -> (string: [u16; 2])
    requires
        n <= 9,
    ensures
        string@ == seq![digit_code(n as int), 0u16],
{
    // The code for the digit that will be printed
    let digit_u16 = [48 + n as u16, 0];
    assert(digit_u16@ =~= seq![digit_code(n as int), 0u16]);
    digit_u16
}

/// The strings that print the integer `n`: one for each decimal digit, most
/// significant first.
pub fn printint(n: u32) -> (strings: Vec<[u16; 2]>)
    ensures
        strings@.len() == digit_codes(n as nat).len(),
        forall|i: int|
            0 <= i < strings@.len() ==> (#[trigger] strings@[i])@ == seq![
                digit_codes(n as nat)[i],
                0u16,
            ],
    decreases n,
{
    if n >= 10 {
        let quotient = n / 10;
        let remainder = n % 10;
        let mut strings = printint(quotient);
        strings.push(printdigit(remainder));
        strings
    } else {
        let mut strings = Vec::new();
        strings.push(printdigit(n));
        strings
    }
}

/// The string that prints a single character before the switch to a
/// graphics mode: the character in one code unit, and the 0 that ends the
/// string. Only the low sixteen bits of the character's code point are
/// kept.
pub fn pre_graphics_print_char(c: char) -> (string: [u16; 2])
    ensures
        string@ == seq![(c as u32 % 0x10000) as u16, 0u16],
{
    let code = (c as u32 % 0x10000) as u16;
    // The UTF-16 encoded string which contains the single character to be printed
    let utf16_encoded_buffer = [code, 0];
    assert(utf16_encoded_buffer@ =~= seq![code, 0u16]);
    utf16_encoded_buffer
}

/// The strings that print a string slice before the switch to a graphics
/// mode: one for each of its characters, in order.
pub fn pre_graphics_print_str(s: &str) -> (strings: Vec<[u16; 2]>)
    ensures
        strings@.len() == s@.len(),
        forall|i: int|
            0 <= i < strings@.len() ==> (#[trigger] strings@[i])@ == seq![
                (s@[i] as u32 % 0x10000) as u16,
                0u16,
            ],
{
    let mut strings: Vec<[u16; 2]> = Vec::new();
    for c in chars: s.chars()
        invariant
            chars.seq() == s@,
            strings@.len() == chars.index(),
            forall|i: int|
                0 <= i < strings@.len() ==> (#[trigger] strings@[i])@ == seq![
                    (s@[i] as u32 % 0x10000) as u16,
                    0u16,
                ],
    {
        strings.push(pre_graphics_print_char(c));
    }
    strings
}

} // verus!
