//! Bytecode operands. An operand is one 32-bit word; what it stands for is
//! told by the range that the word, read as a signed number, falls in.

use vstd::prelude::*;
use vstd::string::StringExecFns;
use crate::ast::{ExprModel, Expression, Fixed, Identifier, IdentifierOrPointer, TargetModel};
use crate::text::{hex_upper, push_hex};

verus! {

pub const GAMEBYTE_STR: &'static str = "gamebyte";

pub const AREABYTE_STR: &'static str = "areabyte";

pub const MAPWORD_STR: &'static str = "mapvar";

pub const FUNWORD_STR: &'static str = "word";

pub const GAMEFLAG_STR: &'static str = "gameflag";

pub const AREAFLAG_STR: &'static str = "areaflag";

pub const MAPFLAG_STR: &'static str = "mapflag";

pub const FUNFLAG_STR: &'static str = "flag";

pub const FLAGARRAY_STR: &'static str = "flags";

pub const ARRAY_STR: &'static str = "array";

/// Words at or below this are plain integers.
pub const INT_MAX_LOW: i32 = -250_000_000;

pub const FLOAT_MAX: i32 = -220_000_000;

pub const FLAG_ARRAY_MAX: i32 = -200_000_000;

pub const ARRAY_MAX: i32 = -180_000_000;

pub const GAME_BYTE_MAX: i32 = -160_000_000;

pub const AREA_BYTE_MAX: i32 = -140_000_000;

pub const GAME_FLAG_MAX: i32 = -120_000_000;

pub const AREA_FLAG_MAX: i32 = -100_000_000;

pub const MAP_FLAG_MAX: i32 = -80_000_000;

pub const FUN_FLAG_MAX: i32 = -60_000_000;

pub const MAP_WORD_MAX: i32 = -40_000_000;

/// Words above this are plain integers.
pub const FUN_WORD_MAX: i32 = -20_000_000;

/// The high half of every word that is the address of a script or of
/// native code of the map.
pub const POINTER_HIGH: u32 = 0x8024_0000;

/// What is added to a fixed-point word to get 1024 times its value.
pub const FLOAT_BIAS: i32 = 230_000_000;

/// One operand of an operation.
#[derive(Debug, Clone, Copy, PartialEq, Eq, Hash, Structural)]
pub struct Arg(pub u32);

/// What an operand stands for.
#[derive(Debug, Clone, Copy, PartialEq, Eq, Hash, Structural)]
pub enum ArgKind {
    Int,
    Float,
    GameByte,
    AreaByte,
    MapWord,
    FunWord,
    GameFlag,
    AreaFlag,
    MapFlag,
    FunFlag,
    FlagArrayIndex,
    ArrayIndex,
    /// The address of a script or of native code of the map.
    Pointer,
}

/// A word read as a signed number in two's complement.
pub open spec fn signed(word: u32) -> int {
    if word >= 0x8000_0000 {
        word - 0x1_0000_0000
    } else {
        word as int
    }
}

/// A number taken modulo 2^32.
pub open spec fn wrapped(i: int) -> nat {
    (i % 0x1_0000_0000) as nat
}

/// Whether the high half of a word marks it as an address of the map.
pub open spec fn is_local_pointer(word: u32) -> bool {
    0x8024_0000 <= word <= 0x8024_FFFF
}

impl ArgKind {
    /// The distance of the middle of the kind's range below zero; zero for
    /// the two kinds that have no range of their own.
    pub open spec fn bias(self) -> int {
        match self {
            ArgKind::Int => 0,
            ArgKind::Pointer => 0,
            ArgKind::Float => 230_000_000,
            ArgKind::FlagArrayIndex => 210_000_000,
            ArgKind::ArrayIndex => 190_000_000,
            ArgKind::GameByte => 170_000_000,
            ArgKind::AreaByte => 150_000_000,
            ArgKind::GameFlag => 130_000_000,
            ArgKind::AreaFlag => 110_000_000,
            ArgKind::MapFlag => 90_000_000,
            ArgKind::FunFlag => 70_000_000,
            ArgKind::MapWord => 50_000_000,
            ArgKind::FunWord => 30_000_000,
        }
    }

    /// Whether a signed word lies in the range of this kind. The ranges of
    /// the eleven tagged kinds are 20,000,000 wide (the lowest, that of
    /// `Float`, 30,000,000) and follow each other without a gap; addresses
    /// of the map are a small range far below them; every other word is an
    /// `Int`.
    pub open spec fn holds(self, word: u32) -> bool {
        let s = signed(word);
        match self {
            ArgKind::Pointer => is_local_pointer(word),
            ArgKind::Int => (s <= -250_000_000 && !is_local_pointer(word)) || s > -20_000_000,
            ArgKind::Float => -250_000_000 < s <= -220_000_000,
            _ => -self.bias() - 10_000_000 < s <= -self.bias() + 10_000_000,
        }
    }

    /// The word in front of the underscore in the name of a stored value
    /// of this kind; empty for a kind that names no storage.
    pub open spec fn prefix(self) -> Seq<char> {
        match self {
            ArgKind::GameByte => GAMEBYTE_STR@,
            ArgKind::AreaByte => AREABYTE_STR@,
            ArgKind::MapWord => MAPWORD_STR@,
            ArgKind::FunWord => FUNWORD_STR@,
            ArgKind::GameFlag => GAMEFLAG_STR@,
            ArgKind::AreaFlag => AREAFLAG_STR@,
            ArgKind::MapFlag => MAPFLAG_STR@,
            ArgKind::FunFlag => FUNFLAG_STR@,
            _ => Seq::empty(),
        }
    }

    /// Whether the kind is storage with a name of its own.
    pub open spec fn is_storage(self) -> bool {
        self == ArgKind::GameByte || self == ArgKind::AreaByte || self == ArgKind::MapWord || self
            == ArgKind::FunWord || self == ArgKind::GameFlag || self == ArgKind::AreaFlag || self
            == ArgKind::MapFlag || self == ArgKind::FunFlag
    }

    /// Whether the kind is storage that holds a truth value.
    pub open spec fn is_flag(self) -> bool {
        self == ArgKind::GameFlag || self == ArgKind::AreaFlag || self == ArgKind::MapFlag || self
            == ArgKind::FunFlag
    }
}

/// The name of the storage place `index` of a kind: the kind's word, an
/// underscore, and the index in upper-case base sixteen.
pub open spec fn storage_name(kind: ArgKind, index: nat) -> Seq<char> {
    kind.prefix() + "_"@ + hex_upper(index)
}

impl Arg {
    /// The kind of a word, found by going up the ladder of thresholds.
    pub open spec fn spec_kind(self) -> ArgKind {
        let s = signed(self.0);
        if s <= INT_MAX_LOW {
            if is_local_pointer(self.0) {
                ArgKind::Pointer
            } else {
                ArgKind::Int
            }
        } else if s <= FLOAT_MAX {
            ArgKind::Float
        } else if s <= FLAG_ARRAY_MAX {
            ArgKind::FlagArrayIndex
        } else if s <= ARRAY_MAX {
            ArgKind::ArrayIndex
        } else if s <= GAME_BYTE_MAX {
            ArgKind::GameByte
        } else if s <= AREA_BYTE_MAX {
            ArgKind::AreaByte
        } else if s <= GAME_FLAG_MAX {
            ArgKind::GameFlag
        } else if s <= AREA_FLAG_MAX {
            ArgKind::AreaFlag
        } else if s <= MAP_FLAG_MAX {
            ArgKind::MapFlag
        } else if s <= FUN_FLAG_MAX {
            ArgKind::FunFlag
        } else if s <= MAP_WORD_MAX {
            ArgKind::MapWord
        } else if s <= FUN_WORD_MAX {
            ArgKind::FunWord
        } else {
            ArgKind::Int
        }
    }

    /// The index that a tagged word carries: the word plus the bias of its
    /// kind, modulo 2^32.
    pub open spec fn spec_index(self) -> nat {
        wrapped(signed(self.0) + self.spec_kind().bias())
    }

    /// The name that the word stands for, where its kind is storage.
    pub open spec fn spec_identifier(self) -> Option<Seq<char>> {
        if self.spec_kind().is_storage() {
            Some(storage_name(self.spec_kind(), self.spec_index()))
        } else {
            None
        }
    }

    /// The expression that the word stands for.
    pub open spec fn spec_expression(self) -> ExprModel {
        match self.spec_kind() {
            ArgKind::Int => ExprModel::Int(self.0),
            ArgKind::Pointer => ExprModel::Int(self.0),
            ArgKind::Float => ExprModel::Float(Fixed { raw: (signed(self.0) + FLOAT_BIAS) as i64 }),
            ArgKind::FlagArrayIndex => ExprModel::ArrayIndex(
                FLAGARRAY_STR@,
                (self.spec_index() % 256) as u8,
            ),
            ArgKind::ArrayIndex => ExprModel::ArrayIndex(
                ARRAY_STR@,
                (self.spec_index() % 256) as u8,
            ),
            kind => ExprModel::Name(storage_name(kind, self.spec_index())),
        }
    }

    /// The word read as a signed number.
    pub fn as_signed(self) -> (s: i32)
        ensures
            s == signed(self.0),
    {
        if self.0 >= 0x8000_0000 {
            let low: i32 = (self.0 - 0x8000_0000) as i32;
            low + i32::MIN
        } else {
            self.0 as i32
        }
    }

    /// The kind of the word.
    pub fn kind(self) -> (kind: ArgKind)
        ensures
            kind == self.spec_kind(),
            kind.holds(self.0),
    {
        let s = self.as_signed();
        if s <= INT_MAX_LOW {
            if self.0 >= 0x8024_0000 && self.0 <= 0x8024_FFFF {
                ArgKind::Pointer
            } else {
                ArgKind::Int
            }
        } else if s <= FLOAT_MAX {
            ArgKind::Float
        } else if s <= FLAG_ARRAY_MAX {
            ArgKind::FlagArrayIndex
        } else if s <= ARRAY_MAX {
            ArgKind::ArrayIndex
        } else if s <= GAME_BYTE_MAX {
            ArgKind::GameByte
        } else if s <= AREA_BYTE_MAX {
            ArgKind::AreaByte
        } else if s <= GAME_FLAG_MAX {
            ArgKind::GameFlag
        } else if s <= AREA_FLAG_MAX {
            ArgKind::AreaFlag
        } else if s <= MAP_FLAG_MAX {
            ArgKind::MapFlag
        } else if s <= FUN_FLAG_MAX {
            ArgKind::FunFlag
        } else if s <= MAP_WORD_MAX {
            ArgKind::MapWord
        } else if s <= FUN_WORD_MAX {
            ArgKind::FunWord
        } else {
            ArgKind::Int
        }
    }
}

impl ArgKind {
    /// The word in front of the underscore in names of this kind.
    pub fn prefix_str(self) -> (s: &'static str)
        ensures
            s@ == self.prefix(),
            !self.is_storage() ==> s@ == Seq::<char>::empty(),
    {
        match self {
            ArgKind::GameByte => GAMEBYTE_STR,
            ArgKind::AreaByte => AREABYTE_STR,
            ArgKind::MapWord => MAPWORD_STR,
            ArgKind::FunWord => FUNWORD_STR,
            ArgKind::GameFlag => GAMEFLAG_STR,
            ArgKind::AreaFlag => AREAFLAG_STR,
            ArgKind::MapFlag => MAPFLAG_STR,
            ArgKind::FunFlag => FUNFLAG_STR,
            _ => {
                proof {
                    reveal_strlit("");
                }
                assert(""@ =~= Seq::<char>::empty());
                ""
            },
        }
    }

    /// The bias of the kind as a machine number.
    pub fn bias_value(self) -> (b: i64)
        ensures
            b == self.bias(),
    {
        match self {
            ArgKind::Int => 0,
            ArgKind::Pointer => 0,
            ArgKind::Float => 230_000_000,
            ArgKind::FlagArrayIndex => 210_000_000,
            ArgKind::ArrayIndex => 190_000_000,
            ArgKind::GameByte => 170_000_000,
            ArgKind::AreaByte => 150_000_000,
            ArgKind::GameFlag => 130_000_000,
            ArgKind::AreaFlag => 110_000_000,
            ArgKind::MapFlag => 90_000_000,
            ArgKind::FunFlag => 70_000_000,
            ArgKind::MapWord => 50_000_000,
            ArgKind::FunWord => 30_000_000,
        }
    }

    /// Whether the kind is storage with a name of its own.
    pub fn names_storage(self) -> (b: bool)
        ensures
            b == self.is_storage(),
    {
        match self {
            ArgKind::GameByte | ArgKind::AreaByte | ArgKind::MapWord | ArgKind::FunWord => true,
            ArgKind::GameFlag | ArgKind::AreaFlag | ArgKind::MapFlag | ArgKind::FunFlag => true,
            _ => false,
        }
    }

    /// Whether the kind is storage that holds a truth value.
    pub fn names_flag(self) -> (b: bool)
        ensures
            b == self.is_flag(),
    {
        match self {
            ArgKind::GameFlag | ArgKind::AreaFlag | ArgKind::MapFlag | ArgKind::FunFlag => true,
            _ => false,
        }
    }
}

impl Fixed {
    /// The word that encodes the number, where there is one: the raw value
    /// less the bias, if that lies in the range of fixed-point words.
    pub open spec fn spec_encode(self) -> Option<u32> {
        let s = self.raw - FLOAT_BIAS;
        if INT_MAX_LOW < s <= FLOAT_MAX {
            Some(wrapped(s) as u32)
        } else {
            None
        }
    }

    /// The number that a fixed-point word encodes.
    pub open spec fn spec_decode(word: u32) -> Fixed {
        Fixed { raw: (signed(word) + FLOAT_BIAS) as i64 }
    }

    /// The operand that encodes the number, if it can be encoded.
    pub fn encode(self) -> (arg: Option<Arg>)
        ensures
            arg.is_some() == self.spec_encode().is_some(),
            arg matches Some(a) ==> Some(a.0) == self.spec_encode() && a.spec_kind()
                == ArgKind::Float,
    {
        if self.raw > -20_000_000 && self.raw <= 10_000_000 {
            let s: i64 = self.raw - 230_000_000;
            let word: u32 = (s + 0x1_0000_0000) as u32;
            Some(Arg(word))
        } else {
            None
        }
    }

    /// The number that a fixed-point operand encodes.
    pub fn decode(arg: Arg) -> (f: Fixed)
        ensures
            f == Self::spec_decode(arg.0),
    {
        Fixed { raw: arg.as_signed() as i64 + 230_000_000 }
    }
}

/// Encoding undoes decoding: a fixed-point word, decoded and encoded again,
/// is the same word.
pub proof fn lemma_fixed_roundtrip(word: u32)
    requires
        Arg(word).spec_kind() == ArgKind::Float,
    ensures
        Fixed::spec_decode(word).spec_encode() == Some(word),
{
}

/// Decoding undoes encoding: a number that can be encoded is what its word
/// decodes to.
pub proof fn lemma_fixed_roundtrip_back(f: Fixed)
    requires
        f.spec_encode().is_some(),
    ensures
        Fixed::spec_decode(f.spec_encode().unwrap()) == f,
        Arg(f.spec_encode().unwrap()).spec_kind() == ArgKind::Float,
{
}

impl Arg {
    /// The index that a tagged word carries.
    pub fn index(self) -> (i: u32)
        ensures
            i == self.spec_index(),
    {
        let d: i64 = self.as_signed() as i64 + self.kind().bias_value();
        if d < 0 {
            (d + 0x1_0000_0000) as u32
        } else {
            d as u32
        }
    }

    /// The name that the operand stands for, where it is storage.
    pub fn into_identifier(self) -> (id: Option<Identifier>)
        ensures
            id.is_some() == self.spec_identifier().is_some(),
            id matches Some(name) ==> Some(name@) == self.spec_identifier(),
    {
        let kind = self.kind();
        if kind.names_storage() {
            let mut name = String::from_str(kind.prefix_str());
            name.append("_");
            push_hex(&mut name, self.index() as u64);
            Some(Identifier(name))
        } else {
            None
        }
    }

    /// The expression that the operand stands for.
    pub fn into_expression(self) -> (e: Expression)
        ensures
            e@ == self.spec_expression(),
    {
        match self.kind() {
            ArgKind::Int => Expression::LiteralInt(self.0),
            ArgKind::Pointer => Expression::LiteralInt(self.0),
            ArgKind::Float => Expression::LiteralFloat(Fixed::decode(self)),
            ArgKind::FlagArrayIndex => Expression::ArrayIndex(
                Identifier(String::from_str(FLAGARRAY_STR)),
                (self.index() % 256) as u8,
            ),
            ArgKind::ArrayIndex => Expression::ArrayIndex(
                Identifier(String::from_str(ARRAY_STR)),
                (self.index() % 256) as u8,
            ),
            _ => {
                match self.into_identifier() {
                    Some(id) => Expression::Identifier(id),
                    None => Expression::LiteralInt(self.0),
                }
            },
        }
    }

    /// The call target that the operand stands for: the word itself, where
    /// it is a plain integer or an address of the map.
    pub open spec fn spec_target(self) -> Option<TargetModel> {
        if self.spec_kind() == ArgKind::Int || self.spec_kind() == ArgKind::Pointer {
            Some(TargetModel::Pointer(self.0))
        } else {
            None
        }
    }

    /// The call target that the operand stands for, if it can be one.
    pub fn into_ident_or_ptr(self) -> (target: Option<IdentifierOrPointer>)
        ensures
            target.is_some() == self.spec_target().is_some(),
            target matches Some(t) ==> Some(t@) == self.spec_target(),
    {
        match self.kind() {
            ArgKind::Int => Some(IdentifierOrPointer::Pointer(self.0)),
            ArgKind::Pointer => Some(IdentifierOrPointer::Pointer(self.0)),
            _ => None,
        }
    }

    /// The signed number that the operand stands for, where it is a plain
    /// integer.
    pub open spec fn spec_int(self) -> Option<i32> {
        if self.spec_kind() == ArgKind::Int {
            Some(signed(self.0) as i32)
        } else {
            None
        }
    }

    /// The signed number that the operand stands for, if it is a plain
    /// integer.
    pub fn into_int(self) -> (i: Option<i32>)
        ensures
            i == self.spec_int(),
    {
        match self.kind() {
            ArgKind::Int => Some(self.as_signed()),
            _ => None,
        }
    }
}

/// Every word has exactly one kind: it lies in the range of the kind that
/// the ladder of thresholds gives it, and in the range of no other.
pub proof fn lemma_kinds_partition(word: u32, kind: ArgKind)
    ensures
        kind.holds(word) <==> Arg(word).spec_kind() == kind,
{
}

} // verus!
