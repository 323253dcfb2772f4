//! The tables of what is tedious to collect: the connectors an output can be
//! plugged into, and the resolutions that go by a name.
//!
//! Where one name is the beginning of another one, the longer one comes
//! first in its table: a text is read as the first name that it starts with.

use crate::geometry::Size;
use crate::text::{chars_of, has_at, range_is, starts_at};
use vstd::prelude::*;

verus! {

/// The first entry of `table`, from index `from` on, whose name stands in
/// `s` at `pos`: what it names, and where the text goes on behind the name.
pub open spec fn first_named<T>(
    table: Seq<(Seq<char>, T)>,
    s: Seq<char>,
    pos: int,
    from: int,
) -> Option<(T, int)>
    decreases table.len() - from,
{
    if from < 0 || from >= table.len() {
        None
    } else if has_at(s, pos, table[from].0) {
        Some((table[from].1, pos + table[from].0.len()))
    } else {
        first_named(table, s, pos, from + 1)
    }
}

/// Protocol and possibly physical form of the cable/plug
/// used to connect an output to the system.
#[derive(Copy, Clone, Debug, PartialEq, Eq, PartialOrd, Ord, Hash, Structural)]
pub enum Connector {
    Unknown,
    Vga,
    DviI,
    DviD,
    DviA,
    Composite,
    Svideo,
    Lvds,
    Component,
    NinePinDin,
    DisplayPort,
    HdmiB,
    HdmiA,
    Tv,
    Edp,
    Virtual,
    Dsi,
    Dpi,
    Writeback,
    Spi,
    Usb,
    Headless,
}

impl Connector {
    /// How many connectors there are.
    pub const COUNT: u8 = 22;

    /// How many names the connectors have in a layout description.
    pub const NAMES: usize = 23;

    /// The place of the connector in their order, counted from zero.
    pub open spec fn rank(self) -> nat {
        match self {
            Connector::Unknown => 0,
            Connector::Vga => 1,
            Connector::DviI => 2,
            Connector::DviD => 3,
            Connector::DviA => 4,
            Connector::Composite => 5,
            Connector::Svideo => 6,
            Connector::Lvds => 7,
            Connector::Component => 8,
            Connector::NinePinDin => 9,
            Connector::DisplayPort => 10,
            Connector::HdmiB => 11,
            Connector::HdmiA => 12,
            Connector::Tv => 13,
            Connector::Edp => 14,
            Connector::Virtual => 15,
            Connector::Dsi => 16,
            Connector::Dpi => 17,
            Connector::Writeback => 18,
            Connector::Spi => 19,
            Connector::Usb => 20,
            Connector::Headless => 21,
        }
    }

    /// The connector with the given place in their order.
    pub open spec fn ranked(i: int) -> Connector {
        if i == 0 {
            Connector::Unknown
        } else if i == 1 {
            Connector::Vga
        } else if i == 2 {
            Connector::DviI
        } else if i == 3 {
            Connector::DviD
        } else if i == 4 {
            Connector::DviA
        } else if i == 5 {
            Connector::Composite
        } else if i == 6 {
            Connector::Svideo
        } else if i == 7 {
            Connector::Lvds
        } else if i == 8 {
            Connector::Component
        } else if i == 9 {
            Connector::NinePinDin
        } else if i == 10 {
            Connector::DisplayPort
        } else if i == 11 {
            Connector::HdmiB
        } else if i == 12 {
            Connector::HdmiA
        } else if i == 13 {
            Connector::Tv
        } else if i == 14 {
            Connector::Edp
        } else if i == 15 {
            Connector::Virtual
        } else if i == 16 {
            Connector::Dsi
        } else if i == 17 {
            Connector::Dpi
        } else if i == 18 {
            Connector::Writeback
        } else if i == 19 {
            Connector::Spi
        } else if i == 20 {
            Connector::Usb
        } else {
            Connector::Headless
        }
    }

    /// The name by which the window manager calls the connector.
    pub open spec fn spec_wm_name(self) -> Seq<char> {
        match self {
            Connector::Unknown => "Unknown"@,
            Connector::Vga => "VGA"@,
            Connector::DviI => "DVI-I"@,
            Connector::DviD => "DVI-D"@,
            Connector::DviA => "DVI-A"@,
            Connector::Composite => "Composite"@,
            Connector::Svideo => "SVIDEO"@,
            Connector::Lvds => "LVDS"@,
            Connector::Component => "Component"@,
            Connector::NinePinDin => "DIN"@,
            Connector::DisplayPort => "DP"@,
            Connector::HdmiB => "HDMI-B"@,
            Connector::HdmiA => "HDMI-A"@,
            Connector::Tv => "TV"@,
            Connector::Edp => "eDP"@,
            Connector::Virtual => "Virtual"@,
            Connector::Dsi => "DSI"@,
            Connector::Dpi => "DPI"@,
            Connector::Writeback => "Writeback"@,
            Connector::Spi => "SPI"@,
            Connector::Usb => "USB"@,
            Connector::Headless => "HEADLESS"@,
        }
    }

    /// Entry `i` of the table of names in a layout description.
    pub open spec fn dsl_entry(i: int) -> (Seq<char>, Connector) {
        if i == 0 {
            ("unknown"@, Connector::Unknown)
        } else if i == 1 {
            ("vga"@, Connector::Vga)
        } else if i == 2 {
            ("dvii"@, Connector::DviI)
        } else if i == 3 {
            ("dvid"@, Connector::DviD)
        } else if i == 4 {
            ("dvia"@, Connector::DviA)
        } else if i == 5 {
            ("composite"@, Connector::Composite)
        } else if i == 6 {
            ("svideo"@, Connector::Svideo)
        } else if i == 7 {
            ("lvds"@, Connector::Lvds)
        } else if i == 8 {
            ("component"@, Connector::Component)
        } else if i == 9 {
            ("din"@, Connector::NinePinDin)
        } else if i == 10 {
            ("dpi"@, Connector::Dpi)
        } else if i == 11 {
            ("dp"@, Connector::DisplayPort)
        } else if i == 12 {
            ("hdmib"@, Connector::HdmiB)
        } else if i == 13 {
            ("hdmia"@, Connector::HdmiA)
        } else if i == 14 {
            ("hdmi"@, Connector::HdmiA)
        } else if i == 15 {
            ("tv"@, Connector::Tv)
        } else if i == 16 {
            ("edp"@, Connector::Edp)
        } else if i == 17 {
            ("virtual"@, Connector::Virtual)
        } else if i == 18 {
            ("dsi"@, Connector::Dsi)
        } else if i == 19 {
            ("writeback"@, Connector::Writeback)
        } else if i == 20 {
            ("spi"@, Connector::Spi)
        } else if i == 21 {
            ("usb"@, Connector::Usb)
        } else {
            ("headless"@, Connector::Headless)
        }
    }

    /// No two connectors have the same name for the window manager.
    pub proof fn lemma_wm_names_differ(self, other: Connector)
        requires
            self.spec_wm_name() == other.spec_wm_name(),
        ensures
            self == other,
    {
        reveal_strlit("Unknown");
        reveal_strlit("VGA");
        reveal_strlit("DVI-I");
        reveal_strlit("DVI-D");
        reveal_strlit("DVI-A");
        reveal_strlit("Composite");
        reveal_strlit("SVIDEO");
        reveal_strlit("LVDS");
        reveal_strlit("Component");
        reveal_strlit("DIN");
        reveal_strlit("DP");
        reveal_strlit("HDMI-B");
        reveal_strlit("HDMI-A");
        reveal_strlit("TV");
        reveal_strlit("eDP");
        reveal_strlit("Virtual");
        reveal_strlit("DSI");
        reveal_strlit("DPI");
        reveal_strlit("Writeback");
        reveal_strlit("SPI");
        reveal_strlit("USB");
        reveal_strlit("HEADLESS");
        assert("Unknown"@.len() == 7 && "Unknown"@[0] == 'U' && "Unknown"@[1] == 'n' && "Unknown"@[2] == 'k' && "Unknown"@[3] == 'n' && "Unknown"@[4] == 'o' && "Unknown"@[5] == 'w' && "Unknown"@[6] == 'n');
        assert("VGA"@.len() == 3 && "VGA"@[0] == 'V' && "VGA"@[1] == 'G' && "VGA"@[2] == 'A');
        assert("DVI-I"@.len() == 5 && "DVI-I"@[0] == 'D' && "DVI-I"@[1] == 'V' && "DVI-I"@[2] == 'I' && "DVI-I"@[3] == '-' && "DVI-I"@[4] == 'I');
        assert("DVI-D"@.len() == 5 && "DVI-D"@[0] == 'D' && "DVI-D"@[1] == 'V' && "DVI-D"@[2] == 'I' && "DVI-D"@[3] == '-' && "DVI-D"@[4] == 'D');
        assert("DVI-A"@.len() == 5 && "DVI-A"@[0] == 'D' && "DVI-A"@[1] == 'V' && "DVI-A"@[2] == 'I' && "DVI-A"@[3] == '-' && "DVI-A"@[4] == 'A');
        assert("Composite"@.len() == 9 && "Composite"@[0] == 'C' && "Composite"@[1] == 'o' && "Composite"@[2] == 'm' && "Composite"@[3] == 'p' && "Composite"@[4] == 'o' && "Composite"@[5] == 's' && "Composite"@[6] == 'i' && "Composite"@[7] == 't' && "Composite"@[8] == 'e');
        assert("SVIDEO"@.len() == 6 && "SVIDEO"@[0] == 'S' && "SVIDEO"@[1] == 'V' && "SVIDEO"@[2] == 'I' && "SVIDEO"@[3] == 'D' && "SVIDEO"@[4] == 'E' && "SVIDEO"@[5] == 'O');
        assert("LVDS"@.len() == 4 && "LVDS"@[0] == 'L' && "LVDS"@[1] == 'V' && "LVDS"@[2] == 'D' && "LVDS"@[3] == 'S');
        assert("Component"@.len() == 9 && "Component"@[0] == 'C' && "Component"@[1] == 'o' && "Component"@[2] == 'm' && "Component"@[3] == 'p' && "Component"@[4] == 'o' && "Component"@[5] == 'n' && "Component"@[6] == 'e' && "Component"@[7] == 'n' && "Component"@[8] == 't');
        assert("DIN"@.len() == 3 && "DIN"@[0] == 'D' && "DIN"@[1] == 'I' && "DIN"@[2] == 'N');
        assert("DP"@.len() == 2 && "DP"@[0] == 'D' && "DP"@[1] == 'P');
        assert("HDMI-B"@.len() == 6 && "HDMI-B"@[0] == 'H' && "HDMI-B"@[1] == 'D' && "HDMI-B"@[2] == 'M' && "HDMI-B"@[3] == 'I' && "HDMI-B"@[4] == '-' && "HDMI-B"@[5] == 'B');
        assert("HDMI-A"@.len() == 6 && "HDMI-A"@[0] == 'H' && "HDMI-A"@[1] == 'D' && "HDMI-A"@[2] == 'M' && "HDMI-A"@[3] == 'I' && "HDMI-A"@[4] == '-' && "HDMI-A"@[5] == 'A');
        assert("TV"@.len() == 2 && "TV"@[0] == 'T' && "TV"@[1] == 'V');
        assert("eDP"@.len() == 3 && "eDP"@[0] == 'e' && "eDP"@[1] == 'D' && "eDP"@[2] == 'P');
        assert("Virtual"@.len() == 7 && "Virtual"@[0] == 'V' && "Virtual"@[1] == 'i' && "Virtual"@[2] == 'r' && "Virtual"@[3] == 't' && "Virtual"@[4] == 'u' && "Virtual"@[5] == 'a' && "Virtual"@[6] == 'l');
        assert("DSI"@.len() == 3 && "DSI"@[0] == 'D' && "DSI"@[1] == 'S' && "DSI"@[2] == 'I');
        assert("DPI"@.len() == 3 && "DPI"@[0] == 'D' && "DPI"@[1] == 'P' && "DPI"@[2] == 'I');
        assert("Writeback"@.len() == 9 && "Writeback"@[0] == 'W' && "Writeback"@[1] == 'r' && "Writeback"@[2] == 'i' && "Writeback"@[3] == 't' && "Writeback"@[4] == 'e' && "Writeback"@[5] == 'b' && "Writeback"@[6] == 'a' && "Writeback"@[7] == 'c' && "Writeback"@[8] == 'k');
        assert("SPI"@.len() == 3 && "SPI"@[0] == 'S' && "SPI"@[1] == 'P' && "SPI"@[2] == 'I');
        assert("USB"@.len() == 3 && "USB"@[0] == 'U' && "USB"@[1] == 'S' && "USB"@[2] == 'B');
        assert("HEADLESS"@.len() == 8 && "HEADLESS"@[0] == 'H' && "HEADLESS"@[1] == 'E' && "HEADLESS"@[2] == 'A' && "HEADLESS"@[3] == 'D' && "HEADLESS"@[4] == 'L' && "HEADLESS"@[5] == 'E' && "HEADLESS"@[6] == 'S' && "HEADLESS"@[7] == 'S');
    }

    /// The window manager's name of a connector is looked up as that
    /// connector, from its own place or any before.
    pub proof fn lemma_wm_lookup(self, from: int)
        requires
            0 <= from <= self.rank(),
        ensures
            Connector::wm_lookup(self.spec_wm_name(), from) == Some(self),
        decreases self.rank() - from,
    {
        self.lemma_ranked();
        if from < self.rank() {
            let other = Connector::ranked(from);
            if other.spec_wm_name() == self.spec_wm_name() {
                other.lemma_wm_names_differ(self);
            }
            self.lemma_wm_lookup(from + 1);
        }
    }

    /// The table of names in a layout description.
    pub open spec fn dsl_table() -> Seq<(Seq<char>, Connector)> {
        Seq::new(Connector::NAMES as nat, |i: int| Connector::dsl_entry(i))
    }

    /// The connector that `name` is the window manager's name of: the first
    /// one in their order, from place `from` on.
    pub open spec fn wm_lookup(name: Seq<char>, from: int) -> Option<Connector>
        decreases Connector::COUNT - from,
    {
        if from < 0 || from >= Connector::COUNT {
            None
        } else if Connector::ranked(from).spec_wm_name() == name {
            Some(Connector::ranked(from))
        } else {
            Connector::wm_lookup(name, from + 1)
        }
    }

    /// Every connector is the one at its own place.
    pub proof fn lemma_ranked(self)
        ensures
            self.rank() < Connector::COUNT,
            Connector::ranked(self.rank() as int) == self,
    {
    }

    /// The place of the connector in their order, counted from zero.
    pub fn ordinal(self) -> (r: u8)
        ensures
            r == self.rank(),
            r < Connector::COUNT,
    {
        match self {
            Connector::Unknown => 0,
            Connector::Vga => 1,
            Connector::DviI => 2,
            Connector::DviD => 3,
            Connector::DviA => 4,
            Connector::Composite => 5,
            Connector::Svideo => 6,
            Connector::Lvds => 7,
            Connector::Component => 8,
            Connector::NinePinDin => 9,
            Connector::DisplayPort => 10,
            Connector::HdmiB => 11,
            Connector::HdmiA => 12,
            Connector::Tv => 13,
            Connector::Edp => 14,
            Connector::Virtual => 15,
            Connector::Dsi => 16,
            Connector::Dpi => 17,
            Connector::Writeback => 18,
            Connector::Spi => 19,
            Connector::Usb => 20,
            Connector::Headless => 21,
        }
    }

    /// The connector with the given place in their order.
    pub fn from_ordinal(i: u8) -> (r: Self)
        requires
            i < Connector::COUNT,
        ensures
            r == Connector::ranked(i as int),
            r.rank() == i,
    {
        match i {
            0 => Connector::Unknown,
            1 => Connector::Vga,
            2 => Connector::DviI,
            3 => Connector::DviD,
            4 => Connector::DviA,
            5 => Connector::Composite,
            6 => Connector::Svideo,
            7 => Connector::Lvds,
            8 => Connector::Component,
            9 => Connector::NinePinDin,
            10 => Connector::DisplayPort,
            11 => Connector::HdmiB,
            12 => Connector::HdmiA,
            13 => Connector::Tv,
            14 => Connector::Edp,
            15 => Connector::Virtual,
            16 => Connector::Dsi,
            17 => Connector::Dpi,
            18 => Connector::Writeback,
            19 => Connector::Spi,
            20 => Connector::Usb,
            _ => Connector::Headless,
        }
    }

    /// The name by which the window manager calls the connector.
    pub fn wm_name(self) -> (r: &'static str)
        ensures
            r@ == self.spec_wm_name(),
    {
        match self {
            Connector::Unknown => "Unknown",
            Connector::Vga => "VGA",
            Connector::DviI => "DVI-I",
            Connector::DviD => "DVI-D",
            Connector::DviA => "DVI-A",
            Connector::Composite => "Composite",
            Connector::Svideo => "SVIDEO",
            Connector::Lvds => "LVDS",
            Connector::Component => "Component",
            Connector::NinePinDin => "DIN",
            Connector::DisplayPort => "DP",
            Connector::HdmiB => "HDMI-B",
            Connector::HdmiA => "HDMI-A",
            Connector::Tv => "TV",
            Connector::Edp => "eDP",
            Connector::Virtual => "Virtual",
            Connector::Dsi => "DSI",
            Connector::Dpi => "DPI",
            Connector::Writeback => "Writeback",
            Connector::Spi => "SPI",
            Connector::Usb => "USB",
            Connector::Headless => "HEADLESS",
        }
    }

    /// Entry `i` of the table of names in a layout description.
    fn dsl_word(i: usize) -> (r: (&'static str, Connector))
        requires
            i < Connector::NAMES,
        ensures
            (r.0@, r.1) == Connector::dsl_entry(i as int),
    {
        match i {
            0 => ("unknown", Connector::Unknown),
            1 => ("vga", Connector::Vga),
            2 => ("dvii", Connector::DviI),
            3 => ("dvid", Connector::DviD),
            4 => ("dvia", Connector::DviA),
            5 => ("composite", Connector::Composite),
            6 => ("svideo", Connector::Svideo),
            7 => ("lvds", Connector::Lvds),
            8 => ("component", Connector::Component),
            9 => ("din", Connector::NinePinDin),
            10 => ("dpi", Connector::Dpi),
            11 => ("dp", Connector::DisplayPort),
            12 => ("hdmib", Connector::HdmiB),
            13 => ("hdmia", Connector::HdmiA),
            14 => ("hdmi", Connector::HdmiA),
            15 => ("tv", Connector::Tv),
            16 => ("edp", Connector::Edp),
            17 => ("virtual", Connector::Virtual),
            18 => ("dsi", Connector::Dsi),
            19 => ("writeback", Connector::Writeback),
            20 => ("spi", Connector::Spi),
            21 => ("usb", Connector::Usb),
            _ => ("headless", Connector::Headless),
        }
    }

    /// Reads the name of a connector, as a layout description has it, in the
    /// first `end` characters of `input` at `pos`. Gives the connector and
    /// the place behind its name.
    pub fn parse_from_name(input: &[char], end: usize, pos: usize) -> (r: Option<(Connector, usize)>)
        requires
            end <= input@.len(),
        ensures
            r is Some <==> first_named(
                Connector::dsl_table(),
                input@.take(end as int),
                pos as int,
                0,
            ) is Some,
            r matches Some(found) ==> first_named(
                Connector::dsl_table(),
                input@.take(end as int),
                pos as int,
                0,
            ) == Some((found.0, found.1 as int)) && pos <= found.1 <= end,
    {
        let ghost table = Connector::dsl_table();
        let ghost t = input@.take(end as int);
        let mut i: usize = 0;
        while i < Connector::NAMES
            invariant
                i <= Connector::NAMES,
                end <= input@.len(),
                table == Connector::dsl_table(),
                t == input@.take(end as int),
                first_named(table, t, pos as int, 0) == first_named(table, t, pos as int, i as int),
            decreases Connector::NAMES - i,
        {
            let (word, connector) = Connector::dsl_word(i);
            if starts_at(input, end, pos, word) {
                return Some((connector, pos + word.unicode_len()));
            }
            i = i + 1;
        }
        None
    }

    /// The connector that the window manager calls by the characters of
    /// `input` from `from` up to `to`.
    pub fn wm_name_in(input: &[char], from: usize, to: usize) -> (r: Option<Connector>)
        requires
            from <= to <= input@.len(),
        ensures
            r == Connector::wm_lookup(input@.subrange(from as int, to as int), 0),
            r matches Some(connector) ==> connector.spec_wm_name() == input@.subrange(
                from as int,
                to as int,
            ),
            r is None ==> forall|connector: Connector|
                connector.spec_wm_name() != input@.subrange(from as int, to as int),
    {
        let ghost name = input@.subrange(from as int, to as int);
        let mut i: u8 = 0;
        while i < Connector::COUNT
            invariant
                i <= Connector::COUNT,
                from <= to <= input@.len(),
                name == input@.subrange(from as int, to as int),
                Connector::wm_lookup(name, 0) == Connector::wm_lookup(name, i as int),
                forall|connector: Connector|
                    connector.rank() < i ==> #[trigger] connector.spec_wm_name() != name,
            decreases Connector::COUNT - i,
        {
            let connector: Connector = Connector::from_ordinal(i);
            if range_is(input, from, to, connector.wm_name()) {
                return Some(connector);
            }
            proof {
                assert forall|other: Connector| other.rank() < i + 1 implies #[trigger]
                    other.spec_wm_name() != name by {
                    other.lemma_ranked();
                }
            }
            i = i + 1;
        }
        proof {
            assert forall|connector: Connector| connector.spec_wm_name() != name by {
                connector.lemma_ranked();
            }
        }
        None
    }

    /// The connector that the window manager calls `name`.
    pub fn from_wm_name(name: &str) -> (r: Option<Connector>)
        ensures
            r == Connector::wm_lookup(name@, 0),
            r matches Some(connector) ==> connector.spec_wm_name() == name@,
            r is None ==> forall|connector: Connector| connector.spec_wm_name() != name@,
    {
        let chars: Vec<char> = chars_of(name);
        proof {
            assert(chars@.subrange(0, chars@.len() as int) =~= name@);
        }
        Connector::wm_name_in(chars.as_slice(), 0, chars.len())
    }
}

/// Size of a screen in pixels, by its common name or as given.
///
/// Display resolutions are weird.
/// The mapping between name and sizes is sometimes ambiguous
/// with multiple sizes sharing the same name.
/// This is mostly ignored here, and one of the names is picked.
#[derive(Copy, Clone, Debug, PartialEq, Eq, PartialOrd, Ord, Hash, Structural)]
pub enum Resolution {
    Qvga,
    Wqvga,
    Vga,
    Wvga,
    Fwvga,
    Qhd,
    Svga,
    Wsvga,
    Hd,
    Xga,
    XgaPlus,
    HdPlus,
    QuadVga,
    Sxga,
    Fhd,
    Dci2k,
    Uwfhd,
    Qwxga,
    Uxga,
    FhdPlus,
    Wqhd,
    Uwqhd,
    Hd2k,
    Qxga,
    Wqxga,
    UwqhdPlus,
    Hd3k,
    WqxgaPlus,
    WqhdPlus,
    Sqhd,
    Hd3kPlus,
    Qsxga,
    QsxgaPlus,
    Hd3Halfk,
    Uhd4k,
    Dci4k,
    Quxga,
    Uhd4kPlus,
    Uhd5k,
    Uhd6k,
    Uhd8k,
    Custom(Size),
}

impl Resolution {
    /// How many resolutions have a name.
    pub const NAMES: usize = 41;

    /// Width and height of the resolution.
    pub open spec fn spec_size(&self) -> Size {
        match self {
            Resolution::Qvga => Size { width: 320, height: 240 },
            Resolution::Wqvga => Size { width: 400, height: 240 },
            Resolution::Vga => Size { width: 640, height: 480 },
            Resolution::Wvga => Size { width: 800, height: 480 },
            Resolution::Fwvga => Size { width: 854, height: 480 },
            Resolution::Qhd => Size { width: 960, height: 540 },
            Resolution::Svga => Size { width: 800, height: 600 },
            Resolution::Wsvga => Size { width: 1024, height: 600 },
            Resolution::Hd => Size { width: 1280, height: 720 },
            Resolution::Xga => Size { width: 1024, height: 768 },
            Resolution::XgaPlus => Size { width: 1152, height: 864 },
            Resolution::HdPlus => Size { width: 1600, height: 900 },
            Resolution::QuadVga => Size { width: 1280, height: 960 },
            Resolution::Sxga => Size { width: 1280, height: 1024 },
            Resolution::Fhd => Size { width: 1920, height: 1080 },
            Resolution::Dci2k => Size { width: 2048, height: 1080 },
            Resolution::Uwfhd => Size { width: 2560, height: 1080 },
            Resolution::Qwxga => Size { width: 2048, height: 1152 },
            Resolution::Uxga => Size { width: 1600, height: 1200 },
            Resolution::FhdPlus => Size { width: 1900, height: 1200 },
            Resolution::Wqhd => Size { width: 2560, height: 1440 },
            Resolution::Uwqhd => Size { width: 3440, height: 1440 },
            Resolution::Hd2k => Size { width: 2256, height: 1504 },
            Resolution::Qxga => Size { width: 2048, height: 1600 },
            Resolution::Wqxga => Size { width: 2560, height: 1600 },
            Resolution::UwqhdPlus => Size { width: 3840, height: 1600 },
            Resolution::Hd3k => Size { width: 1620, height: 2880 },
            Resolution::WqxgaPlus => Size { width: 2880, height: 1800 },
            Resolution::WqhdPlus => Size { width: 3200, height: 1800 },
            Resolution::Sqhd => Size { width: 1920, height: 1920 },
            Resolution::Hd3kPlus => Size { width: 3072, height: 1920 },
            Resolution::Qsxga => Size { width: 2560, height: 2048 },
            Resolution::QsxgaPlus => Size { width: 2800, height: 2100 },
            Resolution::Hd3Halfk => Size { width: 3456, height: 2160 },
            Resolution::Uhd4k => Size { width: 3840, height: 2160 },
            Resolution::Dci4k => Size { width: 4096, height: 2160 },
            Resolution::Quxga => Size { width: 3200, height: 2400 },
            Resolution::Uhd4kPlus => Size { width: 3840, height: 2400 },
            Resolution::Uhd5k => Size { width: 5120, height: 2880 },
            Resolution::Uhd6k => Size { width: 6144, height: 3456 },
            Resolution::Uhd8k => Size { width: 7680, height: 4320 },
            Resolution::Custom(size) => *size,
        }
    }

    /// Entry `i` of the table of named resolutions.
    pub open spec fn named_entry(i: int) -> (Seq<char>, Resolution) {
        if i == 0 {
            ("240p"@, Resolution::Qvga)
        } else if i == 1 {
            ("w240p"@, Resolution::Wqvga)
        } else if i == 2 {
            ("480p"@, Resolution::Vga)
        } else if i == 3 {
            ("w480p"@, Resolution::Wvga)
        } else if i == 4 {
            ("uw480p"@, Resolution::Fwvga)
        } else if i == 5 {
            ("540p"@, Resolution::Qhd)
        } else if i == 6 {
            ("600p"@, Resolution::Svga)
        } else if i == 7 {
            ("w600p"@, Resolution::Wsvga)
        } else if i == 8 {
            ("720p"@, Resolution::Hd)
        } else if i == 9 {
            ("768p"@, Resolution::Xga)
        } else if i == 10 {
            ("864p"@, Resolution::XgaPlus)
        } else if i == 11 {
            ("900p"@, Resolution::HdPlus)
        } else if i == 12 {
            ("960p"@, Resolution::QuadVga)
        } else if i == 13 {
            ("1024p"@, Resolution::Sxga)
        } else if i == 14 {
            ("1080p"@, Resolution::Fhd)
        } else if i == 15 {
            ("dci2k"@, Resolution::Dci2k)
        } else if i == 16 {
            ("w1080p"@, Resolution::Uwfhd)
        } else if i == 17 {
            ("1152p"@, Resolution::Qwxga)
        } else if i == 18 {
            ("s1200p"@, Resolution::Uxga)
        } else if i == 19 {
            ("1200p"@, Resolution::FhdPlus)
        } else if i == 20 {
            ("1440p"@, Resolution::Wqhd)
        } else if i == 21 {
            ("w1440p"@, Resolution::Uwqhd)
        } else if i == 22 {
            ("2k"@, Resolution::Hd2k)
        } else if i == 23 {
            ("1600p"@, Resolution::Qxga)
        } else if i == 24 {
            ("w1600p"@, Resolution::Wqxga)
        } else if i == 25 {
            ("uw1600p"@, Resolution::UwqhdPlus)
        } else if i == 26 {
            ("3k"@, Resolution::Hd3k)
        } else if i == 27 {
            ("1800p"@, Resolution::WqxgaPlus)
        } else if i == 28 {
            ("w1800p"@, Resolution::WqhdPlus)
        } else if i == 29 {
            ("sq1920p"@, Resolution::Sqhd)
        } else if i == 30 {
            ("1920p"@, Resolution::Hd3kPlus)
        } else if i == 31 {
            ("2048p"@, Resolution::Qsxga)
        } else if i == 32 {
            ("2100p"@, Resolution::QsxgaPlus)
        } else if i == 33 {
            ("3.5k"@, Resolution::Hd3Halfk)
        } else if i == 34 {
            ("4k"@, Resolution::Uhd4k)
        } else if i == 35 {
            ("dci4k"@, Resolution::Dci4k)
        } else if i == 36 {
            ("2400p"@, Resolution::Quxga)
        } else if i == 37 {
            ("w2400p"@, Resolution::Uhd4kPlus)
        } else if i == 38 {
            ("5k"@, Resolution::Uhd5k)
        } else if i == 39 {
            ("6k"@, Resolution::Uhd6k)
        } else {
            ("8k"@, Resolution::Uhd8k)
        }
    }

    /// The table of named resolutions.
    pub open spec fn named_table() -> Seq<(Seq<char>, Resolution)> {
        Seq::new(Resolution::NAMES as nat, |i: int| Resolution::named_entry(i))
    }

    /// Width and height of the resolution.
    #[must_use]
    #[verifier::when_used_as_spec(spec_size)]
    pub fn size(&self) -> (r: Size)
        ensures
            r == self.spec_size(),
    {
        match self {
            Resolution::Qvga => Size { width: 320, height: 240 },
            Resolution::Wqvga => Size { width: 400, height: 240 },
            Resolution::Vga => Size { width: 640, height: 480 },
            Resolution::Wvga => Size { width: 800, height: 480 },
            Resolution::Fwvga => Size { width: 854, height: 480 },
            Resolution::Qhd => Size { width: 960, height: 540 },
            Resolution::Svga => Size { width: 800, height: 600 },
            Resolution::Wsvga => Size { width: 1024, height: 600 },
            Resolution::Hd => Size { width: 1280, height: 720 },
            Resolution::Xga => Size { width: 1024, height: 768 },
            Resolution::XgaPlus => Size { width: 1152, height: 864 },
            Resolution::HdPlus => Size { width: 1600, height: 900 },
            Resolution::QuadVga => Size { width: 1280, height: 960 },
            Resolution::Sxga => Size { width: 1280, height: 1024 },
            Resolution::Fhd => Size { width: 1920, height: 1080 },
            Resolution::Dci2k => Size { width: 2048, height: 1080 },
            Resolution::Uwfhd => Size { width: 2560, height: 1080 },
            Resolution::Qwxga => Size { width: 2048, height: 1152 },
            Resolution::Uxga => Size { width: 1600, height: 1200 },
            Resolution::FhdPlus => Size { width: 1900, height: 1200 },
            Resolution::Wqhd => Size { width: 2560, height: 1440 },
            Resolution::Uwqhd => Size { width: 3440, height: 1440 },
            Resolution::Hd2k => Size { width: 2256, height: 1504 },
            Resolution::Qxga => Size { width: 2048, height: 1600 },
            Resolution::Wqxga => Size { width: 2560, height: 1600 },
            Resolution::UwqhdPlus => Size { width: 3840, height: 1600 },
            Resolution::Hd3k => Size { width: 1620, height: 2880 },
            Resolution::WqxgaPlus => Size { width: 2880, height: 1800 },
            Resolution::WqhdPlus => Size { width: 3200, height: 1800 },
            Resolution::Sqhd => Size { width: 1920, height: 1920 },
            Resolution::Hd3kPlus => Size { width: 3072, height: 1920 },
            Resolution::Qsxga => Size { width: 2560, height: 2048 },
            Resolution::QsxgaPlus => Size { width: 2800, height: 2100 },
            Resolution::Hd3Halfk => Size { width: 3456, height: 2160 },
            Resolution::Uhd4k => Size { width: 3840, height: 2160 },
            Resolution::Dci4k => Size { width: 4096, height: 2160 },
            Resolution::Quxga => Size { width: 3200, height: 2400 },
            Resolution::Uhd4kPlus => Size { width: 3840, height: 2400 },
            Resolution::Uhd5k => Size { width: 5120, height: 2880 },
            Resolution::Uhd6k => Size { width: 6144, height: 3456 },
            Resolution::Uhd8k => Size { width: 7680, height: 4320 },
            Resolution::Custom(size) => *size,
        }
    }

    /// Entry `i` of the table of named resolutions.
    fn named_word(i: usize) -> (r: (&'static str, Resolution))
        requires
            i < Resolution::NAMES,
        ensures
            (r.0@, r.1) == Resolution::named_entry(i as int),
    {
        match i {
            0 => ("240p", Resolution::Qvga),
            1 => ("w240p", Resolution::Wqvga),
            2 => ("480p", Resolution::Vga),
            3 => ("w480p", Resolution::Wvga),
            4 => ("uw480p", Resolution::Fwvga),
            5 => ("540p", Resolution::Qhd),
            6 => ("600p", Resolution::Svga),
            7 => ("w600p", Resolution::Wsvga),
            8 => ("720p", Resolution::Hd),
            9 => ("768p", Resolution::Xga),
            10 => ("864p", Resolution::XgaPlus),
            11 => ("900p", Resolution::HdPlus),
            12 => ("960p", Resolution::QuadVga),
            13 => ("1024p", Resolution::Sxga),
            14 => ("1080p", Resolution::Fhd),
            15 => ("dci2k", Resolution::Dci2k),
            16 => ("w1080p", Resolution::Uwfhd),
            17 => ("1152p", Resolution::Qwxga),
            18 => ("s1200p", Resolution::Uxga),
            19 => ("1200p", Resolution::FhdPlus),
            20 => ("1440p", Resolution::Wqhd),
            21 => ("w1440p", Resolution::Uwqhd),
            22 => ("2k", Resolution::Hd2k),
            23 => ("1600p", Resolution::Qxga),
            24 => ("w1600p", Resolution::Wqxga),
            25 => ("uw1600p", Resolution::UwqhdPlus),
            26 => ("3k", Resolution::Hd3k),
            27 => ("1800p", Resolution::WqxgaPlus),
            28 => ("w1800p", Resolution::WqhdPlus),
            29 => ("sq1920p", Resolution::Sqhd),
            30 => ("1920p", Resolution::Hd3kPlus),
            31 => ("2048p", Resolution::Qsxga),
            32 => ("2100p", Resolution::QsxgaPlus),
            33 => ("3.5k", Resolution::Hd3Halfk),
            34 => ("4k", Resolution::Uhd4k),
            35 => ("dci4k", Resolution::Dci4k),
            36 => ("2400p", Resolution::Quxga),
            37 => ("w2400p", Resolution::Uhd4kPlus),
            38 => ("5k", Resolution::Uhd5k),
            39 => ("6k", Resolution::Uhd6k),
            _ => ("8k", Resolution::Uhd8k),
        }
    }

    /// Reads the name of a resolution in the first `end` characters of
    /// `input` at `pos`. Gives the resolution and the place behind its name.
    pub fn parse_from_name(input: &[char], end: usize, pos: usize) -> (r: Option<(Resolution, usize)>)
        requires
            end <= input@.len(),
        ensures
            r is Some <==> first_named(
                Resolution::named_table(),
                input@.take(end as int),
                pos as int,
                0,
            ) is Some,
            r matches Some(found) ==> first_named(
                Resolution::named_table(),
                input@.take(end as int),
                pos as int,
                0,
            ) == Some((found.0, found.1 as int)) && pos <= found.1 <= end,
    {
        let ghost table = Resolution::named_table();
        let ghost t = input@.take(end as int);
        let mut i: usize = 0;
        while i < Resolution::NAMES
            invariant
                i <= Resolution::NAMES,
                end <= input@.len(),
                table == Resolution::named_table(),
                t == input@.take(end as int),
                first_named(table, t, pos as int, 0) == first_named(table, t, pos as int, i as int),
            decreases Resolution::NAMES - i,
        {
            let (word, resolution) = Resolution::named_word(i);
            if starts_at(input, end, pos, word) {
                return Some((resolution, pos + word.unicode_len()));
            }
            i = i + 1;
        }
        None
    }
}

} // verus!
