//! Operands as the flat listing of a script shows them: each word is
//! told apart by its range and carries the index that is left once the
//! bias of its range is taken off.

use vstd::prelude::*;
use vstd::string::StringExecFns;
use crate::arg::{is_local_pointer, signed, wrapped, Arg};
use crate::ast::Fixed;
use crate::text::{
    binary, decimal, hex_lower, hex_padded, push_binary, push_decimal, push_hex_lower,
    push_hex_padded, push_signed, signed_decimal,
};
use crate::unparse::{fixed_text, push_fixed};

verus! {

/// The events that a script can be bound to, by the word that stands for
/// each in bytecode.
#[derive(Debug, PartialEq, Eq, Clone, Copy, Structural)]
pub enum Trigger {
    FloorTouch,
    FloorAbove,
    FloorInteract,
    FloorJump,
    WallTouch,
    WallPush,
    WallInteract,
    WallHammer,
    Bomb,
    GameFlagSet,
    AreaFlagSet,
}

impl Trigger {
    /// The word that stands for the event.
    pub open spec fn code(self) -> u32 {
        match self {
            Trigger::FloorTouch => 0x0000_0080,
            Trigger::FloorAbove => 0x0008_0000,
            Trigger::FloorInteract => 0x0000_0800,
            Trigger::FloorJump => 0x0000_0200,
            Trigger::WallTouch => 0x0000_0400,
            Trigger::WallPush => 0x0000_0040,
            Trigger::WallInteract => 0x0000_0100,
            Trigger::WallHammer => 0x0000_1000,
            Trigger::Bomb => 0x0010_0000,
            Trigger::GameFlagSet => 0x0001_0000,
            Trigger::AreaFlagSet => 0x0002_0000,
        }
    }

    /// The event that a word stands for, if any.
    pub open spec fn with_code(word: u32) -> Option<Trigger> {
        if word == 0x0000_0080 {
            Some(Trigger::FloorTouch)
        } else if word == 0x0008_0000 {
            Some(Trigger::FloorAbove)
        } else if word == 0x0000_0800 {
            Some(Trigger::FloorInteract)
        } else if word == 0x0000_0200 {
            Some(Trigger::FloorJump)
        } else if word == 0x0000_0400 {
            Some(Trigger::WallTouch)
        } else if word == 0x0000_0040 {
            Some(Trigger::WallPush)
        } else if word == 0x0000_0100 {
            Some(Trigger::WallInteract)
        } else if word == 0x0000_1000 {
            Some(Trigger::WallHammer)
        } else if word == 0x0010_0000 {
            Some(Trigger::Bomb)
        } else if word == 0x0001_0000 {
            Some(Trigger::GameFlagSet)
        } else if word == 0x0002_0000 {
            Some(Trigger::AreaFlagSet)
        } else {
            None
        }
    }

    /// The event as the listing names it.
    pub open spec fn name(self) -> Seq<char> {
        match self {
            Trigger::FloorTouch => "stand_on"@,
            Trigger::FloorAbove => "above_floor"@,
            Trigger::FloorInteract => "interact_floor"@,
            Trigger::FloorJump => "jump"@,
            Trigger::WallTouch => "touch_wall"@,
            Trigger::WallPush => "push_wall"@,
            Trigger::WallInteract => "interact_wall"@,
            Trigger::WallHammer => "hammer_wall"@,
            Trigger::Bomb => "bomb"@,
            Trigger::GameFlagSet => "gameflag_change"@,
            Trigger::AreaFlagSet => "areaflag_change"@,
        }
    }

    /// The word that stands for the event.
    pub fn to_u32(self) -> (word: u32)
        ensures
            word == self.code(),
    {
        match self {
            Trigger::FloorTouch => 0x0000_0080,
            Trigger::FloorAbove => 0x0008_0000,
            Trigger::FloorInteract => 0x0000_0800,
            Trigger::FloorJump => 0x0000_0200,
            Trigger::WallTouch => 0x0000_0400,
            Trigger::WallPush => 0x0000_0040,
            Trigger::WallInteract => 0x0000_0100,
            Trigger::WallHammer => 0x0000_1000,
            Trigger::Bomb => 0x0010_0000,
            Trigger::GameFlagSet => 0x0001_0000,
            Trigger::AreaFlagSet => 0x0002_0000,
        }
    }

    /// Reads a word as an event.
    pub fn from_u32(word: u32) -> (t: Option<Trigger>)
        ensures
            t == Self::with_code(word),
            t matches Some(trigger) ==> trigger.code() == word,
    {
        match word {
            0x0000_0080 => Some(Trigger::FloorTouch),
            0x0008_0000 => Some(Trigger::FloorAbove),
            0x0000_0800 => Some(Trigger::FloorInteract),
            0x0000_0200 => Some(Trigger::FloorJump),
            0x0000_0400 => Some(Trigger::WallTouch),
            0x0000_0040 => Some(Trigger::WallPush),
            0x0000_0100 => Some(Trigger::WallInteract),
            0x0000_1000 => Some(Trigger::WallHammer),
            0x0010_0000 => Some(Trigger::Bomb),
            0x0001_0000 => Some(Trigger::GameFlagSet),
            0x0002_0000 => Some(Trigger::AreaFlagSet),
            _ => None,
        }
    }

    /// The event as the listing names it.
    pub fn to_str(self) -> (s: &'static str)
        ensures
            s@ == self.name(),
    {
        match self {
            Trigger::FloorTouch => "stand_on",
            Trigger::FloorAbove => "above_floor",
            Trigger::FloorInteract => "interact_floor",
            Trigger::FloorJump => "jump",
            Trigger::WallTouch => "touch_wall",
            Trigger::WallPush => "push_wall",
            Trigger::WallInteract => "interact_wall",
            Trigger::WallHammer => "hammer_wall",
            Trigger::Bomb => "bomb",
            Trigger::GameFlagSet => "gameflag_change",
            Trigger::AreaFlagSet => "areaflag_change",
        }
    }
}

/// One operand as the listing shows it.
#[derive(Debug, Clone, Copy, PartialEq, Eq, Structural)]
pub enum Symbol {
    Unknown(i32),
    Float(Fixed),
    FlagArray(i32),
    Array(i32),
    GameByte(u32),
    AreaByte(i32),
    GameFlag(i32),
    AreaFlag(i32),
    MapFlag(i32),
    Flag(i32),
    MapVar(i32),
    Var(i32),
    Primitive(i32),
    Pointer(u32),
    Trigger(Trigger),
}

/// The name of a byte of the game that has one.
pub open spec fn game_byte_name(index: u32) -> Option<Seq<char>> {
    if index == 0 {
        Some("STORY_PROGRESS"@)
    } else if index == 425 {
        Some("MAP_LOCATION"@)
    } else {
        None
    }
}

/// A fixed-point number as the listing writes it: as a whole number if
/// it is one, else exactly, with its fraction.
pub open spec fn fixed_shown(raw: int) -> Seq<char> {
    if raw % 1024 == 0 {
        signed_decimal(raw / 1024)
    } else {
        fixed_text(raw)
    }
}

impl Symbol {
    /// The operand that a word stands for.
    pub open spec fn of(word: u32) -> Symbol {
        let s = signed(word);
        if s <= -270_000_000 {
            if is_local_pointer(word) {
                Symbol::Pointer((word - 0x8024_0000) as u32)
            } else {
                Symbol::Primitive(s as i32)
            }
        } else if s <= -250_000_000 {
            Symbol::Unknown((s + 250_000_000) as i32)
        } else if s <= -220_000_000 {
            Symbol::Float(Fixed { raw: (s + 230_000_000) as i64 })
        } else if s <= -200_000_000 {
            Symbol::FlagArray((s + 210_000_000) as i32)
        } else if s <= -180_000_000 {
            Symbol::Array((s + 190_000_000) as i32)
        } else if s <= -160_000_000 {
            Symbol::GameByte(wrapped(s + 170_000_000) as u32)
        } else if s <= -140_000_000 {
            Symbol::AreaByte((s + 150_000_000) as i32)
        } else if s <= -120_000_000 {
            Symbol::GameFlag((s + 130_000_000) as i32)
        } else if s <= -100_000_000 {
            Symbol::AreaFlag((s + 110_000_000) as i32)
        } else if s <= -80_000_000 {
            Symbol::MapFlag((s + 90_000_000) as i32)
        } else if s <= -60_000_000 {
            Symbol::Flag((s + 70_000_000) as i32)
        } else if s <= -40_000_000 {
            Symbol::MapVar((s + 50_000_000) as i32)
        } else if s <= -20_000_000 {
            Symbol::Var((s + 30_000_000) as i32)
        } else {
            Symbol::Primitive(s as i32)
        }
    }

    /// The operand as the listing writes it.
    pub open spec fn shown(self) -> Seq<char> {
        match self {
            Symbol::Unknown(ptr) => "unknown_"@ + hex_lower(wrapped(ptr as int)),
            Symbol::Float(value) => fixed_shown(value.raw as int),
            Symbol::FlagArray(index) => "arr_"@ + signed_decimal(index as int),
            Symbol::Array(index) => "arr_"@ + signed_decimal(index as int),
            Symbol::GameByte(index) => match game_byte_name(index) {
                Some(name) => name,
                None => "global_"@ + decimal(index as nat),
            },
            Symbol::AreaByte(index) => "area_"@ + signed_decimal(index as int),
            Symbol::GameFlag(index) => "global_flag_"@ + signed_decimal(index as int),
            Symbol::AreaFlag(index) => "area_flag_"@ + signed_decimal(index as int),
            Symbol::MapFlag(index) => "map_flag_"@ + signed_decimal(index as int),
            Symbol::Flag(index) => "bool_"@ + hex_lower(wrapped(index as int)),
            Symbol::MapVar(index) => "map_"@ + hex_lower(wrapped(index as int)),
            Symbol::Var(index) => "var_"@ + hex_lower(wrapped(index as int)),
            Symbol::Primitive(value) => signed_decimal(value as int),
            Symbol::Pointer(offset) => "dump_"@ + hex_lower(offset as nat),
            Symbol::Trigger(trigger) => trigger.name(),
        }
    }

    /// The operand as the listing writes it where a number is to stand
    /// in base sixteen: a plain number as eight digits after `0x`.
    pub open spec fn shown_hex(self) -> Seq<char> {
        match self {
            Symbol::Primitive(value) => "0x"@ + hex_padded(wrapped(value as int), 8),
            _ => self.shown(),
        }
    }

    /// The operand as the listing writes it where a number is to stand
    /// in base two: a plain number in binary after `0b`.
    pub open spec fn shown_binary(self) -> Seq<char> {
        match self {
            Symbol::Primitive(value) => "0b"@ + binary(wrapped(value as int)),
            _ => self.shown(),
        }
    }

    /// Reads a word as an operand.
    pub fn from(u: u32) -> (sym: Symbol)
        ensures
            sym == Self::of(u),
    {
        let s = Arg(u).as_signed();
        if s <= -270_000_000 {
            if u >= 0x8024_0000 && u <= 0x8024_FFFF {
                Symbol::Pointer(u - 0x8024_0000)
            } else {
                Symbol::Primitive(s)
            }
        } else if s <= -250_000_000 {
            Symbol::Unknown(s + 250_000_000)
        } else if s <= -220_000_000 {
            Symbol::Float(Fixed { raw: s as i64 + 230_000_000 })
        } else if s <= -200_000_000 {
            Symbol::FlagArray(s + 210_000_000)
        } else if s <= -180_000_000 {
            Symbol::Array(s + 190_000_000)
        } else if s <= -160_000_000 {
            Symbol::GameByte(unsigned(s + 170_000_000))
        } else if s <= -140_000_000 {
            Symbol::AreaByte(s + 150_000_000)
        } else if s <= -120_000_000 {
            Symbol::GameFlag(s + 130_000_000)
        } else if s <= -100_000_000 {
            Symbol::AreaFlag(s + 110_000_000)
        } else if s <= -80_000_000 {
            Symbol::MapFlag(s + 90_000_000)
        } else if s <= -60_000_000 {
            Symbol::Flag(s + 70_000_000)
        } else if s <= -40_000_000 {
            Symbol::MapVar(s + 50_000_000)
        } else if s <= -20_000_000 {
            Symbol::Var(s + 30_000_000)
        } else {
            Symbol::Primitive(s)
        }
    }

    /// The operand as an event, if it is the word of one.
    pub fn hint_trigger(&self) -> (sym: Symbol)
        ensures
            sym == (match *self {
                Symbol::Primitive(value) => match Trigger::with_code(wrapped(value as int) as u32) {
                    Some(trigger) => Symbol::Trigger(trigger),
                    None => *self,
                },
                _ => *self,
            }),
    {
        match self {
            Symbol::Primitive(value) => match Trigger::from_u32(unsigned(*value)) {
                Some(trigger) => Symbol::Trigger(trigger),
                None => *self,
            },
            _ => *self,
        }
    }

    /// Whether the operand is storage that holds a truth value.
    pub fn is_flag(&self) -> (b: bool)
        ensures
            b == (*self is GameFlag || *self is AreaFlag || *self is MapFlag || *self is Flag),
    {
        match self {
            Symbol::GameFlag(_) | Symbol::AreaFlag(_) | Symbol::MapFlag(_) | Symbol::Flag(_) => true,
            _ => false,
        }
    }

    /// The truth value of a plain number: true if it is one.
    pub fn as_bool(&self) -> (b: Option<bool>)
        ensures
            b == (match *self {
                Symbol::Primitive(v) => Some(v == 1),
                _ => None,
            }),
    {
        match self {
            Symbol::Primitive(v) => Some(*v == 1),
            _ => None,
        }
    }

    /// The place in the map that an address of the map points to.
    pub fn as_offset(&self) -> (offset: Option<u32>)
        ensures
            offset == (match *self {
                Symbol::Pointer(o) => Some(o),
                _ => None,
            }),
    {
        match self {
            Symbol::Pointer(offset) => Some(*offset),
            _ => None,
        }
    }

    /// The word of a plain number.
    pub fn as_u32(&self) -> (word: Option<u32>)
        ensures
            word == (match *self {
                Symbol::Primitive(v) => Some(wrapped(v as int) as u32),
                _ => None,
            }),
    {
        match self {
            Symbol::Primitive(val) => Some(unsigned(*val)),
            _ => None,
        }
    }

    /// Appends the operand as the listing writes it.
    pub fn push_shown(&self, out: &mut String)
        ensures
            final(out)@ == old(out)@ + self.shown(),
    {
        match self {
            Symbol::Unknown(ptr) => {
                out.append("unknown_");
                push_hex_lower(out, unsigned(*ptr) as u64);
            },
            Symbol::Float(value) => {
                if value.raw % 1024 == 0 {
                    push_signed(out, value.raw / 1024);
                } else {
                    push_fixed(out, *value);
                }
            },
            Symbol::FlagArray(index) => {
                out.append("arr_");
                push_signed(out, *index as i64);
            },
            Symbol::Array(index) => {
                out.append("arr_");
                push_signed(out, *index as i64);
            },
            Symbol::GameByte(index) => {
                if *index == 0 {
                    out.append("STORY_PROGRESS");
                } else if *index == 425 {
                    out.append("MAP_LOCATION");
                } else {
                    out.append("global_");
                    push_decimal(out, *index as u64);
                }
            },
            Symbol::AreaByte(index) => {
                out.append("area_");
                push_signed(out, *index as i64);
            },
            Symbol::GameFlag(index) => {
                out.append("global_flag_");
                push_signed(out, *index as i64);
            },
            Symbol::AreaFlag(index) => {
                out.append("area_flag_");
                push_signed(out, *index as i64);
            },
            Symbol::MapFlag(index) => {
                out.append("map_flag_");
                push_signed(out, *index as i64);
            },
            Symbol::Flag(index) => {
                out.append("bool_");
                push_hex_lower(out, unsigned(*index) as u64);
            },
            Symbol::MapVar(index) => {
                out.append("map_");
                push_hex_lower(out, unsigned(*index) as u64);
            },
            Symbol::Var(index) => {
                out.append("var_");
                push_hex_lower(out, unsigned(*index) as u64);
            },
            Symbol::Primitive(value) => {
                push_signed(out, *value as i64);
            },
            Symbol::Pointer(offset) => {
                out.append("dump_");
                push_hex_lower(out, *offset as u64);
            },
            Symbol::Trigger(trigger) => {
                out.append(trigger.to_str());
            },
        }
        assert(final(out)@ =~= old(out)@ + self.shown());
    }

    /// Appends the operand, a plain number in base sixteen.
    pub fn push_shown_hex(&self, out: &mut String)
        ensures
            final(out)@ == old(out)@ + self.shown_hex(),
    {
        match self {
            Symbol::Primitive(value) => {
                out.append("0x");
                push_hex_padded(out, unsigned(*value), 8);
                assert(final(out)@ =~= old(out)@ + self.shown_hex());
            },
            _ => {
                self.push_shown(out);
            },
        }
    }

    /// Appends the operand, a plain number in base two.
    pub fn push_shown_binary(&self, out: &mut String)
        ensures
            final(out)@ == old(out)@ + self.shown_binary(),
    {
        match self {
            Symbol::Primitive(value) => {
                out.append("0b");
                push_binary(out, unsigned(*value) as u64);
                assert(final(out)@ =~= old(out)@ + self.shown_binary());
            },
            _ => {
                self.push_shown(out);
            },
        }
    }

    /// The operand as the listing writes it.
    pub fn to_text(&self) -> (out: String)
        ensures
            out@ == self.shown(),
    {
        let mut out = String::new();
        self.push_shown(&mut out);
        assert(out@ =~= self.shown());
        out
    }
}

/// A signed number as the word that holds it.
pub fn unsigned(v: i32) -> (word: u32)
    ensures
        word == wrapped(v as int),
{
    if v < 0 {
        (v as i64 + 0x1_0000_0000) as u32
    } else {
        v as u32
    }
}

} // verus!
