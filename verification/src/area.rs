//! The areas of the game and their maps, as the tables in the ROM
//! describe them.

use vstd::prelude::*;
use crate::bytecode::{read_operations, read_ops, Bytecode, OpModel};
use crate::loc::{spec_is_vaddr, is_vaddr, Dma, Location, Text};
use crate::rom::{be32, pointer_of, string_at, text_at, word_at, word_inside, Pointer, ReadError, Rom};
use crate::script::{Entrance, GameMap};

verus! {

/// A `GameMap` as a mathematical value.
pub struct MapModel {
    pub name: Seq<char>,
    pub init_asm: Option<Location>,
    pub main_loc: Location,
    pub main_ops: Seq<OpModel>,
    pub dma: Dma,
    pub entrances: Seq<Entrance>,
    pub tattle: Text,
    pub background: Option<Seq<char>>,
    pub flags: u32,
}

/// The model of a map whose main script has not been read into yet.
pub open spec fn map_view(map: GameMap) -> MapModel {
    MapModel {
        name: map.name@,
        init_asm: map.init_asm,
        main_loc: map.main_fun.0,
        main_ops: map.main_fun.1.ops(),
        dma: map.dma,
        entrances: map.entrances@,
        tattle: map.tattle,
        background: match map.background {
            Some(name) => Some(name@),
            None => None,
        },
        flags: map.flags,
    }
}

/// The big-endian word at `at`, if the image reaches that far.
pub open spec fn word(bytes: Seq<u8>, at: int) -> Result<u32, ReadError> {
    if 0 <= at && at + 4 <= bytes.len() {
        Ok(be32(bytes, at))
    } else {
        Err(ReadError::Eof)
    }
}

/// The place in the ROM of a runtime address inside a region.
pub open spec fn vaddr_loc(dma: Dma, vaddr: u32) -> Result<Location, ReadError> {
    if vaddr < dma.dest {
        Err(ReadError::BadAddress(vaddr))
    } else {
        Ok(Location { base: dma.start, offset: (vaddr - dma.dest) as u32 })
    }
}

/// `count` entrances stored from `at` on, each as four words.
pub open spec fn entrances_at(bytes: Seq<u8>, at: int, count: nat) -> Result<Seq<Entrance>, ReadError> {
    if at < 0 || at + 16 * count > bytes.len() {
        Err(ReadError::Eof)
    } else {
        Ok(
            Seq::new(
                count,
                |i: int|
                    Entrance {
                        x: be32(bytes, at + 16 * i),
                        y: be32(bytes, at + 16 * i + 4),
                        z: be32(bytes, at + 16 * i + 8),
                        yaw: be32(bytes, at + 16 * i + 12),
                    },
            ),
        )
    }
}

/// What a map says of itself when it is described: a message, or a
/// function of the map that picks one.
pub open spec fn tattle_of(word: u32, dma: Dma) -> Result<Text, ReadError> {
    if spec_is_vaddr(word) {
        match vaddr_loc(dma, word) {
            Ok(loc) => Ok(Text::Dynamic(loc)),
            Err(e) => Err(e),
        }
    } else {
        Ok(Text::Id(Text::section_of(word), Text::number_of(word)))
    }
}

/// The text that a stored pointer points to, if it points anywhere.
pub open spec fn optional_string(bytes: Seq<u8>, ptr: u32) -> Result<Option<Seq<char>>, ReadError> {
    match pointer_of(ptr) {
        Pointer::NullPtr => Ok(None),
        Pointer::Address(addr) => match string_at(bytes, addr as int) {
            Ok(text) => Ok(Some(text)),
            Err(e) => Err(e),
        },
    }
}

/// The first part of what the entry of a map leads to: its name, its
/// region, the place of its header, and the code that sets it up.
pub struct MapHead {
    pub name: Seq<char>,
    pub dma: Dma,
    pub header: Location,
    pub init_asm: Option<Location>,
}

/// The entry of a map in the table of its area is eight words: a pointer
/// to the name, the runtime address of the header, the start, the end and
/// the runtime address of the region that holds the map, a pointer to the
/// name of the background, the runtime address of the code that sets the
/// map up, and flags.
#[verifier::opaque]
pub open spec fn map_head(bytes: Seq<u8>, pos: int) -> Result<MapHead, ReadError> {
    if pos < 0 || pos + 32 > bytes.len() {
        Err(ReadError::Eof)
    } else {
        let dma = Dma {
            start: be32(bytes, pos + 8),
            end: be32(bytes, pos + 12),
            dest: be32(bytes, pos + 16),
        };
        let init = be32(bytes, pos + 24);
        match pointer_of(be32(bytes, pos)) {
            Pointer::NullPtr => Err(ReadError::NullPointer),
            Pointer::Address(name_addr) => if !spec_is_vaddr(dma.dest) {
                Err(ReadError::BadDestination(dma.dest))
            } else {
                match vaddr_loc(dma, be32(bytes, pos + 4)) {
                    Err(e) => Err(e),
                    Ok(header) => match string_at(bytes, name_addr as int) {
                        Err(e) => Err(e),
                        Ok(name) => if init == 0 {
                            Ok(MapHead { name, dma, header, init_asm: None })
                        } else {
                            match vaddr_loc(dma, init) {
                                Err(e) => Err(e),
                                Ok(loc) => Ok(MapHead { name, dma, header, init_asm: Some(loc) }),
                            }
                        },
                    },
                }
            },
        }
    }
}

/// The map whose entry stands at `pos`. The header of a map holds the
/// runtime address of its main script at 0x10, the runtime address and the
/// number of its entrances at 0x14, and its description at 0x3C.
#[verifier::opaque]
pub open spec fn map_at(bytes: Seq<u8>, pos: int) -> Result<MapModel, ReadError> {
    match map_head(bytes, pos) {
        Err(e) => Err(e),
        Ok(head) => match word(bytes, head.header.addr() + 0x10) {
            Err(e) => Err(e),
            Ok(main_vaddr) => match vaddr_loc(head.dma, main_vaddr) {
                Err(e) => Err(e),
                Ok(main_loc) => match read_ops(bytes, main_loc.addr()) {
                    Err(e) => Err(ReadError::Bytecode(e)),
                    Ok((main_ops, _)) => match word(bytes, head.header.addr() + 0x14) {
                        Err(e) => Err(e),
                        Ok(entrances_vaddr) => match word(bytes, head.header.addr() + 0x18) {
                            Err(e) => Err(e),
                            Ok(count) => match vaddr_loc(head.dma, entrances_vaddr) {
                                Err(e) => Err(e),
                                Ok(entrances_loc) => match entrances_at(
                                    bytes,
                                    entrances_loc.addr(),
                                    count as nat,
                                ) {
                                    Err(e) => Err(e),
                                    Ok(entrances) => match word(bytes, head.header.addr() + 0x3C) {
                                        Err(e) => Err(e),
                                        Ok(tattle_word) => match tattle_of(tattle_word, head.dma) {
                                            Err(e) => Err(e),
                                            Ok(tattle) => match optional_string(
                                                bytes,
                                                be32(bytes, pos + 20),
                                            ) {
                                                Err(e) => Err(e),
                                                Ok(background) => Ok(
                                                    MapModel {
                                                        name: head.name,
                                                        init_asm: head.init_asm,
                                                        main_loc,
                                                        main_ops,
                                                        dma: head.dma,
                                                        entrances,
                                                        tattle,
                                                        background,
                                                        flags: be32(bytes, pos + 28),
                                                    },
                                                ),
                                            },
                                        },
                                    },
                                },
                            },
                        },
                    },
                },
            },
        },
    }
}

fn read_word(bytes: &[u8], at: u64) -> (r: Result<u32, ReadError>)
    ensures
        r == word(bytes@, at as int),
{
    match word_at(bytes, at) {
        Some(w) => Ok(w),
        None => Err(ReadError::Eof),
    }
}

fn locate(dma: &Dma, vaddr: u32) -> (r: Result<Location, ReadError>)
    ensures
        r == vaddr_loc(*dma, vaddr),
{
    match dma.checked_loc_at_vaddr(vaddr) {
        Some(loc) => Ok(loc),
        None => Err(ReadError::BadAddress(vaddr)),
    }
}

fn addr_of(loc: Location) -> (a: u64)
    ensures
        a == loc.addr(),
{
    loc.base as u64 + loc.offset as u64
}

fn read_entrances(bytes: &[u8], at: u64, count: u32) -> (r: Result<Vec<Entrance>, ReadError>)
    requires
        at <= 2 * u32::MAX,
    ensures
        match entrances_at(bytes@, at as int, count as nat) {
            Ok(list) => r matches Ok(read) && read@ == list,
            Err(e) => r matches Err(f) && f == e,
        },
{
    let n = bytes.len() as u64;
    if at > n || 16 * (count as u64) > n - at {
        return Err(ReadError::Eof);
    }
    let mut list: Vec<Entrance> = Vec::new();
    let mut i: u32 = 0;
    let ghost all = entrances_at(bytes@, at as int, count as nat).unwrap();
    while i < count
        invariant
            i <= count,
            n == bytes@.len(),
            at + 16 * count <= n,
            all == entrances_at(bytes@, at as int, count as nat).unwrap(),
            list@ == all.take(i as int),
        decreases count - i,
    {
        let base: u64 = at + 16 * (i as u64);
        let x = word_inside(bytes, base);
        let y = word_inside(bytes, base + 4);
        let z = word_inside(bytes, base + 8);
        let yaw = word_inside(bytes, base + 12);
        list.push(Entrance { x, y, z, yaw });
        i += 1;
        assert(list@ =~= all.take(i as int));
    }
    assert(all.take(count as int) =~= all);
    Ok(list)
}

fn read_tattle(word: u32, dma: &Dma) -> (r: Result<Text, ReadError>)
    ensures
        r == tattle_of(word, *dma),
{
    if is_vaddr(word) {
        match locate(dma, word) {
            Ok(loc) => Ok(Text::Dynamic(loc)),
            Err(e) => Err(e),
        }
    } else {
        Ok(Text::from(word, dma))
    }
}

fn read_optional_string(bytes: &[u8], ptr: u32) -> (r: Result<Option<String>, ReadError>)
    ensures
        match optional_string(bytes@, ptr) {
            Ok(Some(text)) => r matches Ok(Some(s)) && s@ == text,
            Ok(None) => r matches Ok(None),
            Err(e) => r matches Err(f) && f == e,
        },
{
    if ptr == 0 {
        Ok(None)
    } else {
        match text_at(bytes, ptr.wrapping_add(2_147_333_120) as u64) {
            Ok(text) => Ok(Some(text)),
            Err(e) => Err(e),
        }
    }
}

/// What was read of the entry of a map.
struct Head {
    name: String,
    dma: Dma,
    header: Location,
    init_asm: Option<Location>,
}

fn read_map_head(bytes: &[u8], pos: u64) -> (r: Result<Head, ReadError>)
    ensures
        match map_head(bytes@, pos as int) {
            Ok(head) => r matches Ok(read) && read.name@ == head.name && read.dma == head.dma
                && read.header == head.header && read.init_asm == head.init_asm && pos + 32
                <= bytes@.len(),
            Err(e) => r matches Err(f) && f == e,
        },
{
    reveal(map_head);
    let n = bytes.len() as u64;
    if pos > n || n - pos < 32 {
        return Err(ReadError::Eof);
    }
    let name_ptr = word_inside(bytes, pos);
    let header_vaddr = word_inside(bytes, pos + 4);
    let start = word_inside(bytes, pos + 8);
    let end = word_inside(bytes, pos + 12);
    let dest = word_inside(bytes, pos + 16);
    let init = word_inside(bytes, pos + 24);
    if name_ptr == 0 {
        return Err(ReadError::NullPointer);
    }
    let name_addr = name_ptr.wrapping_add(2_147_333_120);
    if !is_vaddr(dest) {
        return Err(ReadError::BadDestination(dest));
    }
    let dma = Dma::new(start, end, dest);
    let header = match locate(&dma, header_vaddr) {
        Err(e) => {
            return Err(e);
        },
        Ok(loc) => loc,
    };
    let name = match text_at(bytes, name_addr as u64) {
        Err(e) => {
            return Err(e);
        },
        Ok(text) => text,
    };
    let init_asm = if init == 0 {
        None
    } else {
        match locate(&dma, init) {
            Err(e) => {
                return Err(e);
            },
            Ok(loc) => Some(loc),
        }
    };
    Ok(Head { name, dma, header, init_asm })
}

/// Reads the map whose entry stands at `pos`.
pub fn read_map_at(bytes: &[u8], pos: u64) -> (r: Result<GameMap, ReadError>)
    ensures
        match map_at(bytes@, pos as int) {
            Ok(map) => r matches Ok(read) && map_view(read) == map && read.main_fun.1.pos() == 0
                && read.main_fun.1.seen() == Seq::<crate::arg::Arg>::empty() && pos + 32
                <= bytes@.len(),
            Err(e) => r matches Err(f) && f == e,
        },
{
    reveal(map_at);
    let head = match read_map_head(bytes, pos) {
        Err(e) => {
            return Err(e);
        },
        Ok(h) => h,
    };
    proof {
        reveal(map_head);
    }
    let size = bytes.len();
    let header = addr_of(head.header);
    let main_vaddr = match read_word(bytes, header + 0x10) {
        Err(e) => {
            return Err(e);
        },
        Ok(w) => w,
    };
    let main_loc = match locate(&head.dma, main_vaddr) {
        Err(e) => {
            return Err(e);
        },
        Ok(loc) => loc,
    };
    let main = match read_operations(bytes, addr_of(main_loc)) {
        Err(e) => {
            return Err(ReadError::Bytecode(e));
        },
        Ok((data, _)) => Bytecode::new(data),
    };
    let entrances_vaddr = match read_word(bytes, header + 0x14) {
        Err(e) => {
            return Err(e);
        },
        Ok(w) => w,
    };
    let count = match read_word(bytes, header + 0x18) {
        Err(e) => {
            return Err(e);
        },
        Ok(w) => w,
    };
    let entrances_loc = match locate(&head.dma, entrances_vaddr) {
        Err(e) => {
            return Err(e);
        },
        Ok(loc) => loc,
    };
    let entrances = match read_entrances(bytes, addr_of(entrances_loc), count) {
        Err(e) => {
            return Err(e);
        },
        Ok(list) => list,
    };
    let tattle_word = match read_word(bytes, header + 0x3C) {
        Err(e) => {
            return Err(e);
        },
        Ok(w) => w,
    };
    let tattle = match read_tattle(tattle_word, &head.dma) {
        Err(e) => {
            return Err(e);
        },
        Ok(t) => t,
    };
    let background_ptr = word_inside(bytes, pos + 20);
    let background = match read_optional_string(bytes, background_ptr) {
        Err(e) => {
            return Err(e);
        },
        Ok(b) => b,
    };
    let flags = word_inside(bytes, pos + 28);
    Ok(
        GameMap {
            name: head.name,
            init_asm: head.init_asm,
            main_fun: (main_loc, main),
            dma: head.dma,
            entrances,
            tattle,
            background,
            flags,
        },
    )
}

/// One area of the game: its name and its maps.
#[derive(Debug)]
pub struct Area {
    pub name: String,
    pub maps: Vec<GameMap>,
}

/// The model of each map of a list, in order.
pub open spec fn maps_view(maps: Seq<GameMap>) -> Seq<MapModel> {
    Seq::new(maps.len(), |i: int| map_view(maps[i]))
}

/// The first `count` maps of the table at `table`, 32 bytes each; the
/// first that cannot be read is the error.
pub open spec fn maps_at(bytes: Seq<u8>, table: int, count: nat) -> Result<Seq<MapModel>, ReadError>
    decreases count,
{
    if count == 0 {
        Ok(Seq::empty())
    } else {
        match maps_at(bytes, table, (count - 1) as nat) {
            Err(e) => Err(e),
            Ok(before) => match map_at(bytes, table + 32 * (count - 1)) {
                Err(e) => Err(e),
                Ok(map) => Ok(before.push(map)),
            },
        }
    }
}

/// The area whose entry stands at `pos`: the number of its maps, a
/// pointer to the table of its maps, and a pointer to its name.
pub open spec fn area_at(bytes: Seq<u8>, pos: int) -> Result<(Seq<char>, Seq<MapModel>), ReadError> {
    if pos < 0 || pos + 12 > bytes.len() {
        Err(ReadError::Eof)
    } else {
        match pointer_of(be32(bytes, pos + 4)) {
            Pointer::NullPtr => Err(ReadError::NullPointer),
            Pointer::Address(maps_addr) => match pointer_of(be32(bytes, pos + 8)) {
                Pointer::NullPtr => Err(ReadError::NullPointer),
                Pointer::Address(name_addr) => match string_at(bytes, name_addr as int) {
                    Err(e) => Err(e),
                    Ok(name) => match maps_at(bytes, maps_addr as int, be32(bytes, pos) as nat) {
                        Err(e) => Err(e),
                        Ok(maps) => Ok((name, maps)),
                    },
                },
            },
        }
    }
}

impl Rom {
    /// Reads the map whose entry stands at the read position, and moves
    /// past the entry.
    pub fn read_map(&mut self) -> (r: Result<GameMap, ReadError>)
        ensures
            final(self).bytes() == old(self).bytes(),
            final(self).spec_region() == old(self).spec_region(),
            match map_at(old(self).bytes(), old(self).pos()) {
                Ok(map) => r matches Ok(read) && map_view(read) == map && read.main_fun.1.pos()
                    == 0 && read.main_fun.1.seen() == Seq::<crate::arg::Arg>::empty()
                    && final(self).pos() == old(self).pos() + 32,
                Err(e) => r matches Err(f) && f == e && final(self).pos() == old(self).pos(),
            },
    {
        let pos = self.position();
        match read_map_at(self.as_bytes(), pos) {
            Err(e) => Err(e),
            Ok(map) => {
                let size = self.as_bytes().len();
                self.seek_to(pos + 32);
                Ok(map)
            },
        }
    }

    /// Reads the area whose entry stands at the read position, and moves
    /// past the entry.
    pub fn read_area(&mut self) -> (r: Result<Area, ReadError>)
        ensures
            final(self).bytes() == old(self).bytes(),
            final(self).spec_region() == old(self).spec_region(),
            match area_at(old(self).bytes(), old(self).pos()) {
                Ok((name, maps)) => r matches Ok(area) && area.name@ == name && maps_view(
                    area.maps@,
                ) == maps && final(self).pos() == old(self).pos() + 12,
                Err(e) => r matches Err(f) && f == e && final(self).pos() == old(self).pos(),
            },
    {
        let pos = self.position();
        let n = self.as_bytes().len() as u64;
        if pos > n || n - pos < 12 {
            return Err(ReadError::Eof);
        }
        let map_count = word_inside(self.as_bytes(), pos);
        let maps_ptr = word_inside(self.as_bytes(), pos + 4);
        let name_ptr = word_inside(self.as_bytes(), pos + 8);
        if maps_ptr == 0 || name_ptr == 0 {
            return Err(ReadError::NullPointer);
        }
        let maps_addr = maps_ptr.wrapping_add(2_147_333_120);
        let name_addr = name_ptr.wrapping_add(2_147_333_120);
        let name = match text_at(self.as_bytes(), name_addr as u64) {
            Err(e) => {
                return Err(e);
            },
            Ok(text) => text,
        };
        let mut maps: Vec<GameMap> = Vec::new();
        let mut i: u32 = 0;
        let ghost bytes = self.bytes();
        let ghost whole = area_at(bytes, pos as int);
        assert(maps_view(maps@) =~= Seq::empty());
        while i < map_count
            invariant
                i <= map_count,
                bytes == self.bytes(),
                whole == area_at(old(self).bytes(), old(self).pos()),
                whole == (match maps_at(bytes, maps_addr as int, map_count as nat) {
                    Err(e) => Err::<(Seq<char>, Seq<MapModel>), ReadError>(e),
                    Ok(maps) => Ok((name@, maps)),
                }),
                self.bytes() == old(self).bytes(),
                self.spec_region() == old(self).spec_region(),
                self.pos() == old(self).pos(),
                maps_at(bytes, maps_addr as int, i as nat) == Ok::<Seq<MapModel>, ReadError>(
                    maps_view(maps@),
                ),
            decreases map_count - i,
        {
            let ghost before = maps_view(maps@);
            let at: u64 = maps_addr as u64 + 32 * (i as u64);
            let map = match read_map_at(self.as_bytes(), at) {
                Err(e) => {
                    proof {
                        assert(maps_at(bytes, maps_addr as int, (i + 1) as nat) == Err::<
                            Seq<MapModel>,
                            ReadError,
                        >(e));
                        lemma_maps_error(bytes, maps_addr as int, (i + 1) as nat, map_count as nat);
                    }
                    return Err(e);
                },
                Ok(m) => m,
            };
            let ghost added = map_view(map);
            maps.push(map);
            assert(maps_view(maps@) =~= before.push(added));
            i += 1;
        }
        self.seek_to(pos + 12);
        Ok(Area { name, maps })
    }
}

/// The error of a shorter table is the error of every longer one.
pub proof fn lemma_maps_error(bytes: Seq<u8>, table: int, short: nat, long: nat)
    requires
        short <= long,
        maps_at(bytes, table, short).is_err(),
    ensures
        maps_at(bytes, table, long) == maps_at(bytes, table, short),
    decreases long - short,
{
    if short < long {
        lemma_maps_error(bytes, table, short, (long - 1) as nat);
    }
}

/// Where the table of areas stands in the ROM.
pub const AREA_TABLE: u32 = 0x0006_E8F0;

/// The number of areas of the game.
pub const AREA_COUNT: u32 = 28;

/// The bytes from the entry of one area to the entry of the next.
pub const AREA_STRIDE: u32 = 16;

/// Where the entry of the area at place `i` stands.
pub fn area_location(i: u32) -> (loc: Location)
    requires
        i < AREA_COUNT,
    ensures
        loc == (Location { base: AREA_TABLE, offset: (i * AREA_STRIDE) as u32 }),
{
    Location::new(AREA_TABLE).add_offset(i * AREA_STRIDE)
}

/// Whether one of the maps has the name.
pub open spec fn has_map_named(maps: Seq<GameMap>, name: Seq<char>) -> bool {
    exists|m: int| 0 <= m < maps.len() && (#[trigger] maps[m]).name@ == name
}

/// The maps without those that have the name of a map before them.
pub open spec fn unique_by_name(maps: Seq<GameMap>) -> Seq<GameMap>
    decreases maps.len(),
{
    if maps.len() == 0 {
        Seq::empty()
    } else {
        let before = unique_by_name(maps.drop_last());
        if has_map_named(before, maps.last().name@) {
            before
        } else {
            before.push(maps.last())
        }
    }
}

impl Area {
    /// The maps of the area without those that have the name of a map
    /// before them.
    pub fn unique_maps(self) -> (kept: Vec<GameMap>)
        ensures
            kept@ == unique_by_name(self.maps@),
    {
        let mut kept: Vec<GameMap> = Vec::new();
        let ghost all = self.maps@;
        assert(all.take(0) =~= Seq::empty());
        for map in it: self.maps
            invariant
                it.seq() == all,
                kept@ == unique_by_name(all.take(it.index() as int)),
        {
            let ghost n = it.index() as int;
            assert(all.take(n + 1).drop_last() =~= all.take(n));
            assert(all.take(n + 1).last() == map);
            let mut seen = false;
            let mut k: usize = 0;
            while k < kept.len()
                invariant
                    k <= kept.len(),
                    seen == has_map_named(kept@.take(k as int), map.name@),
                decreases kept.len() - k,
            {
                let ghost part = kept@.take(k as int);
                let ghost more = kept@.take(k + 1);
                assert(forall|m: int| 0 <= m < k ==> more[m] == part[m]);
                assert(more[k as int] == kept@[k as int]);
                if kept[k].name == map.name {
                    seen = true;
                    assert(more[k as int].name@ == map.name@);
                } else {
                    proof {
                        if has_map_named(more, map.name@) {
                            let m = choose|m: int|
                                0 <= m < more.len() && (#[trigger] more[m]).name@ == map.name@;
                            assert(part[m].name@ == map.name@);
                        }
                        if has_map_named(part, map.name@) {
                            let m = choose|m: int|
                                0 <= m < part.len() && (#[trigger] part[m]).name@ == map.name@;
                            assert(more[m].name@ == map.name@);
                        }
                    }
                }
                k += 1;
            }
            assert(kept@.take(kept@.len() as int) =~= kept@);
            if !seen {
                kept.push(map);
            }
        }
        assert(all.take(all.len() as int) =~= all);
        kept
    }
}

} // verus!
