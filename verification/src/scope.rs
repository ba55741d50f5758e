//! The symbol table of the decompiler: layers of names, innermost first
//! in every lookup.

use vstd::prelude::*;
use crate::assoc::{assoc_get, assoc_index, assoc_put, lemma_assoc_index, lemma_assoc_put, unique_keys};
use crate::datatype::{DataType, TypeModel};

verus! {

/// `str`'s `==` holds of two texts with the same characters in the same
/// order, and of no others.
pub assume_specification[ <str as PartialEq>::eq ](a: &str, b: &str) -> (r: bool)
    ensures
        r == (a@ == b@),
;

/// One row of a flattened layer: the address if the name has one, the
/// name, and its type.
pub type Entry = (Option<u32>, String, DataType);

/// An `Entry` as a mathematical value.
pub type EntryModel = (Option<u32>, Seq<char>, TypeModel);

/// The model of each entry of a list, in order.
pub open spec fn entries_view(entries: Seq<Entry>) -> Seq<EntryModel> {
    Seq::new(entries.len(), |i: int| (entries[i].0, entries[i].1@, entries[i].2@))
}

/// One layer of a scope as a mathematical value: the names of addresses
/// and the types of names, each in the order of first insertion.
pub struct LayerModel {
    pub ptrs: Seq<(u32, Seq<char>)>,
    pub types: Seq<(Seq<char>, TypeModel)>,
}

impl LayerModel {
    /// A layer that holds nothing.
    pub open spec fn empty() -> LayerModel {
        LayerModel { ptrs: Seq::empty(), types: Seq::empty() }
    }

    /// No address and no name stands twice, and the name of every address
    /// has a type.
    pub open spec fn wf(self) -> bool {
        &&& unique_keys(self.ptrs)
        &&& unique_keys(self.types)
        &&& forall|i: int|
            0 <= i < self.ptrs.len() ==> (#[trigger] assoc_index(self.types, self.ptrs[i].1)).is_some()
    }

    /// Whether some address of the layer has this name.
    pub open spec fn names_address(self, name: Seq<char>) -> bool {
        exists|i: int| 0 <= i < self.ptrs.len() && self.ptrs[i].1 == name
    }

    /// The rows for the addresses of the layer, in order, each with the
    /// type of its name.
    pub open spec fn address_rows(self) -> Seq<EntryModel> {
        Seq::new(
            self.ptrs.len(),
            |i: int|
                (
                    Some(self.ptrs[i].0),
                    self.ptrs[i].1,
                    match assoc_get(self.types, self.ptrs[i].1) {
                        Some(t) => t,
                        None => TypeModel::Any,
                    },
                ),
        )
    }

    /// The rows for the first `n` names of the layer that no address has.
    pub open spec fn name_rows(self, n: int) -> Seq<EntryModel>
        decreases n,
    {
        if n <= 0 || n > self.types.len() {
            Seq::empty()
        } else if self.names_address(self.types[n - 1].0) {
            self.name_rows(n - 1)
        } else {
            self.name_rows(n - 1).push((None, self.types[n - 1].0, self.types[n - 1].1))
        }
    }

    /// The layer as one list: first the addresses with their names and
    /// types, then the names that no address has.
    pub open spec fn flatten(self) -> Seq<EntryModel> {
        self.address_rows() + self.name_rows(self.types.len() as int)
    }

    /// The layer after an address got a name and the name a type.
    pub open spec fn insert_ptr(self, ptr: u32, name: Seq<char>, datatype: TypeModel) -> LayerModel {
        LayerModel {
            ptrs: assoc_put(self.ptrs, ptr, name),
            types: assoc_put(self.types, name, datatype),
        }
    }

    /// The layer after a name got a type.
    pub open spec fn insert_name(self, name: Seq<char>, datatype: TypeModel) -> LayerModel {
        LayerModel { ptrs: self.ptrs, types: assoc_put(self.types, name, datatype) }
    }
}

/// A scope as a mathematical value: its layers, the innermost last.
pub struct ScopeModel {
    pub layers: Seq<LayerModel>,
}

impl ScopeModel {
    /// A scope with one empty layer.
    pub open spec fn fresh() -> ScopeModel {
        ScopeModel { layers: seq![LayerModel::empty()] }
    }

    /// Every layer is well formed.
    pub open spec fn wf(self) -> bool {
        forall|i: int| 0 <= i < self.layers.len() ==> (#[trigger] self.layers[i]).wf()
    }

    /// The scope with a new empty layer on top.
    pub open spec fn push(self) -> ScopeModel {
        ScopeModel { layers: self.layers.push(LayerModel::empty()) }
    }

    /// The scope without its innermost layer.
    pub open spec fn pop(self) -> ScopeModel {
        ScopeModel { layers: self.layers.drop_last() }
    }

    /// The scope with another innermost layer.
    pub open spec fn with_top(self, layer: LayerModel) -> ScopeModel {
        ScopeModel { layers: self.layers.drop_last().push(layer) }
    }

    /// The scope after an address got a name, and the name a type, in the
    /// innermost layer.
    pub open spec fn insert_ptr(self, ptr: u32, name: Seq<char>, datatype: TypeModel) -> ScopeModel {
        self.with_top(self.layers.last().insert_ptr(ptr, name, datatype))
    }

    /// The scope after a name got a type in the innermost layer.
    pub open spec fn insert_name(self, name: Seq<char>, datatype: TypeModel) -> ScopeModel {
        self.with_top(self.layers.last().insert_name(name, datatype))
    }

    /// The scope after an insertion with or without an address.
    pub open spec fn insert(self, ptr: Option<u32>, name: Seq<char>, datatype: TypeModel) -> ScopeModel {
        match ptr {
            Some(p) => self.insert_ptr(p, name, datatype),
            None => self.insert_name(name, datatype),
        }
    }

    /// The type that the innermost layer holds for a name.
    pub open spec fn top_type(self, name: Seq<char>) -> Option<TypeModel> {
        if self.layers.len() == 0 {
            None
        } else {
            assoc_get(self.layers.last().types, name)
        }
    }

    /// The name of an address: that of the innermost layer that has one.
    pub open spec fn lookup_ptr(self, ptr: u32) -> Option<Seq<char>>
        decreases self.layers.len(),
    {
        if self.layers.len() == 0 {
            None
        } else {
            match assoc_get(self.layers.last().ptrs, ptr) {
                Some(name) => Some(name),
                None => self.pop().lookup_ptr(ptr),
            }
        }
    }

    /// The type of a name: that of the innermost layer that has one.
    pub open spec fn lookup_name(self, name: Seq<char>) -> Option<TypeModel>
        decreases self.layers.len(),
    {
        if self.layers.len() == 0 {
            None
        } else {
            match assoc_get(self.layers.last().types, name) {
                Some(t) => Some(t),
                None => self.pop().lookup_name(name),
            }
        }
    }

    /// The type of a name, looked for in the innermost layer and at most
    /// `max_depth` layers below it.
    pub open spec fn lookup_name_depth(self, name: Seq<char>, max_depth: nat) -> Option<TypeModel>
        decreases self.layers.len(),
    {
        if self.layers.len() == 0 {
            None
        } else {
            match assoc_get(self.layers.last().types, name) {
                Some(t) => Some(t),
                None => if max_depth == 0 {
                    None
                } else {
                    self.pop().lookup_name_depth(name, (max_depth - 1) as nat)
                },
            }
        }
    }

    /// The name and type that a call target resolves to: a name must have
    /// a type, an address must have a name that has a type.
    pub open spec fn resolve(self, target: crate::ast::TargetModel) -> Option<(Seq<char>, TypeModel)> {
        match target {
            crate::ast::TargetModel::Name(name) => match self.lookup_name(name) {
                Some(t) => Some((name, t)),
                None => None,
            },
            crate::ast::TargetModel::Pointer(ptr) => match self.lookup_ptr(ptr) {
                Some(name) => match self.lookup_name(name) {
                    Some(t) => Some((name, t)),
                    None => None,
                },
                None => None,
            },
        }
    }
}

/// The model of a list of named addresses.
pub open spec fn ptrs_view(v: Seq<(u32, String)>) -> Seq<(u32, Seq<char>)> {
    Seq::new(v.len(), |i: int| (v[i].0, v[i].1@))
}

/// The model of a list of typed names.
pub open spec fn typed_view(v: Seq<(String, DataType)>) -> Seq<(Seq<char>, TypeModel)> {
    Seq::new(v.len(), |i: int| (v[i].0@, v[i].1@))
}

/// One layer of a scope.
#[derive(Debug)]
pub struct Layer {
    ptrs: Vec<(u32, String)>,
    types: Vec<(String, DataType)>,
}

impl View for Layer {
    type V = LayerModel;

    closed spec fn view(&self) -> LayerModel {
        LayerModel { ptrs: ptrs_view(self.ptrs@), types: typed_view(self.types@) }
    }
}

/// Where the pair of an address stands in a list.
fn find_ptr(ptrs: &Vec<(u32, String)>, ptr: u32) -> (r: Option<usize>)
    ensures
        match r {
            Some(i) => assoc_index(ptrs_view(ptrs@), ptr) == Some(i as int),
            None => assoc_index(ptrs_view(ptrs@), ptr).is_none(),
        },
        r matches Some(i) ==> i < ptrs.len(),
{
    let mut i: usize = ptrs.len();
    let ghost whole = ptrs_view(ptrs@);
    assert(whole.take(i as int) =~= whole);
    while i > 0
        invariant
            i <= ptrs.len(),
            whole == ptrs_view(ptrs@),
            assoc_index(whole, ptr) == assoc_index(whole.take(i as int), ptr),
        decreases i,
    {
        i -= 1;
        let ghost part = whole.take(i + 1);
        assert(part.last() == whole[i as int]);
        assert(part.drop_last() =~= whole.take(i as int));
        if ptrs[i].0 == ptr {
            return Some(i);
        }
    }
    None
}

/// Where the pair of a name stands in a list.
fn find_type(types: &Vec<(String, DataType)>, name: &str) -> (r: Option<usize>)
    ensures
        match r {
            Some(i) => assoc_index(typed_view(types@), name@) == Some(i as int),
            None => assoc_index(typed_view(types@), name@).is_none(),
        },
        r matches Some(i) ==> i < types.len(),
{
    let mut i: usize = types.len();
    let ghost whole = typed_view(types@);
    assert(whole.take(i as int) =~= whole);
    while i > 0
        invariant
            i <= types.len(),
            whole == typed_view(types@),
            assoc_index(whole, name@) == assoc_index(whole.take(i as int), name@),
        decreases i,
    {
        i -= 1;
        let ghost part = whole.take(i + 1);
        assert(part.last() == whole[i as int]);
        assert(part.drop_last() =~= whole.take(i as int));
        if types[i].0.as_str().eq(name) {
            return Some(i);
        }
    }
    None
}

/// Gives an address a name; the pair is replaced where it stands, or
/// comes last.
fn put_ptr(ptrs: &mut Vec<(u32, String)>, ptr: u32, name: String)
    ensures
        ptrs_view(final(ptrs)@) == assoc_put(ptrs_view(old(ptrs)@), ptr, name@),
{
    match find_ptr(ptrs, ptr) {
        Some(i) => {
            ptrs.push((ptr, name));
            let _ = ptrs.swap_remove(i);
            assert(ptrs_view(ptrs@) =~= assoc_put(ptrs_view(old(ptrs)@), ptr, name@));
        },
        None => {
            ptrs.push((ptr, name));
            assert(ptrs_view(ptrs@) =~= assoc_put(ptrs_view(old(ptrs)@), ptr, name@));
        },
    }
}

/// Gives a name a type and hands back the type it had.
fn put_type(types: &mut Vec<(String, DataType)>, name: String, datatype: DataType) -> (prev: Option<DataType>)
    ensures
        typed_view(final(types)@) == assoc_put(typed_view(old(types)@), name@, datatype@),
        prev.is_some() == assoc_get(typed_view(old(types)@), name@).is_some(),
        prev matches Some(t) ==> Some(t@) == assoc_get(typed_view(old(types)@), name@),
{
    match find_type(types, name.as_str()) {
        Some(i) => {
            types.push((name, datatype));
            let replaced = types.swap_remove(i);
            assert(typed_view(types@) =~= assoc_put(typed_view(old(types)@), name@, datatype@));
            Some(replaced.1)
        },
        None => {
            types.push((name, datatype));
            assert(typed_view(types@) =~= assoc_put(typed_view(old(types)@), name@, datatype@));
            None
        },
    }
}

/// A layered table of (address -> name -> type). Lookups prefer the
/// innermost layer (see `push` and `pop`); insertions go there.
#[derive(Debug)]
pub struct Scope {
    layers: Vec<Layer>,
}

impl View for Scope {
    type V = ScopeModel;

    closed spec fn view(&self) -> ScopeModel {
        ScopeModel { layers: Seq::new(self.layers@.len(), |i: int| self.layers@[i]@) }
    }
}

impl Scope {
    /// Creates a new scope, with one empty layer.
    pub fn new() -> (scope: Scope)
        ensures
            scope@ == ScopeModel::fresh(),
            scope@.wf(),
    {
        let mut layers: Vec<Layer> = Vec::new();
        layers.push(Layer { ptrs: Vec::new(), types: Vec::new() });
        let scope = Scope { layers };
        assert(ptrs_view(Seq::<(u32, String)>::empty()) =~= Seq::empty());
        assert(typed_view(Seq::<(String, DataType)>::empty()) =~= Seq::empty());
        assert(scope@.layers =~= ScopeModel::fresh().layers);
        scope
    }

    /// The number of layers.
    pub fn depth(&self) -> (n: usize)
        ensures
            n == self@.layers.len(),
    {
        self.layers.len()
    }

    /// Adds a new layer on top of the current one. Values inserted will
    /// shadow values below with the same key until the layer is popped.
    pub fn push(&mut self)
        ensures
            final(self)@ == old(self)@.push(),
            old(self)@.wf() ==> final(self)@.wf(),
    {
        self.layers.push(Layer { ptrs: Vec::new(), types: Vec::new() });
        assert(ptrs_view(Seq::<(u32, String)>::empty()) =~= Seq::empty());
        assert(typed_view(Seq::<(String, DataType)>::empty()) =~= Seq::empty());
        assert(self@.layers =~= old(self)@.push().layers);
    }

    /// Removes the innermost layer and returns what it held as one list,
    /// if there is a layer.
    pub fn pop(&mut self) -> (flat: Option<Vec<Entry>>)
        ensures
            old(self)@.layers.len() == 0 ==> flat.is_none() && final(self)@ == old(self)@,
            old(self)@.layers.len() > 0 ==> final(self)@ == old(self)@.pop() && flat.is_some()
                && entries_view(flat.unwrap()@) == old(self)@.layers.last().flatten(),
            old(self)@.wf() ==> final(self)@.wf(),
    {
        match self.layers.pop() {
            Some(layer) => {
                assert(self@.layers =~= old(self)@.pop().layers);
                Some(flatten_layer(&layer))
            },
            None => {
                assert(self@.layers =~= old(self)@.layers);
                None
            },
        }
    }

    /// Inserts an (address -> name -> type) mapping into the innermost
    /// layer. A key that the layer already has is updated. The type that
    /// the name had there is returned.
    pub fn insert_ptr(&mut self, ptr: u32, name: String, datatype: DataType) -> (prev: Option<DataType>)
        requires
            old(self)@.layers.len() > 0,
        ensures
            final(self)@ == old(self)@.insert_ptr(ptr, name@, datatype@),
            prev.is_some() == old(self)@.top_type(name@).is_some(),
            prev matches Some(t) ==> Some(t@) == old(self)@.top_type(name@),
            old(self)@.wf() ==> final(self)@.wf(),
    {
        let top = self.layers.len() - 1;
        let ghost before = self.layers@[top as int]@;
        put_ptr(&mut self.layers[top].ptrs, ptr, name.clone());
        let prev = put_type(&mut self.layers[top].types, name, datatype);
        assert(self.layers@[top as int]@ == before.insert_ptr(ptr, name@, datatype@));
        assert(self@.layers =~= old(self)@.insert_ptr(ptr, name@, datatype@).layers);
        proof {
            if old(self)@.wf() {
                lemma_insert_ptr_wf(before, ptr, name@, datatype@);
                assert(old(self)@.layers[top as int].wf());
            }
        }
        prev
    }

    /// Inserts a (name -> type) mapping into the innermost layer. If the
    /// layer already has the name, it is updated and its previous type
    /// returned.
    pub fn insert_name(&mut self, name: String, datatype: DataType) -> (prev: Option<DataType>)
        requires
            old(self)@.layers.len() > 0,
        ensures
            final(self)@ == old(self)@.insert_name(name@, datatype@),
            prev.is_some() == old(self)@.top_type(name@).is_some(),
            prev matches Some(t) ==> Some(t@) == old(self)@.top_type(name@),
            old(self)@.wf() ==> final(self)@.wf(),
    {
        let top = self.layers.len() - 1;
        let ghost before = self.layers@[top as int]@;
        let prev = put_type(&mut self.layers[top].types, name, datatype);
        assert(self.layers@[top as int]@ == before.insert_name(name@, datatype@));
        assert(self@.layers =~= old(self)@.insert_name(name@, datatype@).layers);
        proof {
            if old(self)@.wf() {
                lemma_insert_name_wf(before, name@, datatype@);
                assert(old(self)@.layers[top as int].wf());
            }
        }
        prev
    }

    /// Inserts with an address if there is one, else by name alone.
    pub fn insert(&mut self, ptr: Option<u32>, name: String, datatype: DataType) -> (prev: Option<DataType>)
        requires
            old(self)@.layers.len() > 0,
        ensures
            final(self)@ == old(self)@.insert(ptr, name@, datatype@),
            prev.is_some() == old(self)@.top_type(name@).is_some(),
            prev matches Some(t) ==> Some(t@) == old(self)@.top_type(name@),
            old(self)@.wf() ==> final(self)@.wf(),
    {
        match ptr {
            Some(p) => self.insert_ptr(p, name, datatype),
            None => self.insert_name(name, datatype),
        }
    }

    /// Looks up the name associated with a given address.
    pub fn lookup_ptr(&self, ptr: u32) -> (name: Option<&str>)
        ensures
            name.is_some() == self@.lookup_ptr(ptr).is_some(),
            name matches Some(n) ==> Some(n@) == self@.lookup_ptr(ptr),
    {
        let mut i: usize = self.layers.len();
        let ghost whole = self@;
        assert(whole.layers.take(i as int) =~= whole.layers);
        while i > 0
            invariant
                i <= self.layers.len(),
                whole == self@,
                whole.lookup_ptr(ptr) == (ScopeModel { layers: whole.layers.take(i as int) }).lookup_ptr(ptr),
            decreases i,
        {
            i -= 1;
            let ghost part = ScopeModel { layers: whole.layers.take(i + 1) };
            assert(part.layers.last() == self.layers@[i as int]@);
            assert(part.pop().layers =~= whole.layers.take(i as int));
            match find_ptr(&self.layers[i].ptrs, ptr) {
                Some(j) => {
                    return Some(self.layers[i].ptrs[j].1.as_str());
                },
                None => {},
            }
        }
        None
    }

    /// Looks up the type associated with a given name.
    pub fn lookup_name(&self, name: &str) -> (datatype: Option<&DataType>)
        ensures
            datatype.is_some() == self@.lookup_name(name@).is_some(),
            datatype matches Some(t) ==> Some(t@) == self@.lookup_name(name@),
    {
        let mut i: usize = self.layers.len();
        let ghost whole = self@;
        assert(whole.layers.take(i as int) =~= whole.layers);
        while i > 0
            invariant
                i <= self.layers.len(),
                whole == self@,
                whole.lookup_name(name@) == (ScopeModel { layers: whole.layers.take(i as int) }).lookup_name(name@),
            decreases i,
        {
            i -= 1;
            let ghost part = ScopeModel { layers: whole.layers.take(i + 1) };
            assert(part.layers.last() == self.layers@[i as int]@);
            assert(part.pop().layers =~= whole.layers.take(i as int));
            match find_type(&self.layers[i].types, name) {
                Some(j) => {
                    return Some(&self.layers[i].types[j].1);
                },
                None => {},
            }
        }
        None
    }

    /// Looks up the type associated with a given name to a given depth.
    /// A depth of 0 searches the innermost layer only.
    pub fn lookup_name_depth(&self, name: &str, max_depth: usize) -> (datatype: Option<&DataType>)
        ensures
            datatype.is_some() == self@.lookup_name_depth(name@, max_depth as nat).is_some(),
            datatype matches Some(t) ==> Some(t@) == self@.lookup_name_depth(name@, max_depth as nat),
    {
        let mut i: usize = self.layers.len();
        let mut left: usize = max_depth;
        let ghost whole = self@;
        assert(whole.layers.take(i as int) =~= whole.layers);
        while i > 0
            invariant
                i <= self.layers.len(),
                whole == self@,
                whole.lookup_name_depth(name@, max_depth as nat) == (ScopeModel {
                    layers: whole.layers.take(i as int),
                }).lookup_name_depth(name@, left as nat),
            decreases i,
        {
            i -= 1;
            let ghost part = ScopeModel { layers: whole.layers.take(i + 1) };
            assert(part.layers.last() == self.layers@[i as int]@);
            assert(part.pop().layers =~= whole.layers.take(i as int));
            match find_type(&self.layers[i].types, name) {
                Some(j) => {
                    return Some(&self.layers[i].types[j].1);
                },
                None => {},
            }
            if left == 0 {
                return None;
            }
            left -= 1;
        }
        None
    }
}

/// Whether some address in the list has this name.
fn names_address(ptrs: &Vec<(u32, String)>, name: &str) -> (b: bool)
    ensures
        b == (exists|i: int| 0 <= i < ptrs.len() && ptrs@[i].1@ == name@),
{
    let mut i: usize = 0;
    while i < ptrs.len()
        invariant
            i <= ptrs.len(),
            forall|j: int| 0 <= j < i ==> ptrs@[j].1@ != name@,
        decreases ptrs.len() - i,
    {
        if ptrs[i].1.as_str().eq(name) {
            return true;
        }
        i += 1;
    }
    false
}

/// The layer as one list: first the addresses with their names and types,
/// then the names that no address has.
fn flatten_layer(layer: &Layer) -> (flat: Vec<Entry>)
    ensures
        entries_view(flat@) == layer@.flatten(),
{
    let mut flat: Vec<Entry> = Vec::new();
    let ghost model = layer@;
    let mut i: usize = 0;
    while i < layer.ptrs.len()
        invariant
            i <= layer.ptrs.len(),
            model == layer@,
            entries_view(flat@) == model.address_rows().take(i as int),
        decreases layer.ptrs.len() - i,
    {
        let ghost before = entries_view(flat@);
        let name = layer.ptrs[i].1.clone();
        let datatype = match find_type(&layer.types, name.as_str()) {
            Some(j) => layer.types[j].1.clone(),
            None => DataType::Any,
        };
        assert(model.ptrs[i as int].1 == name@);
        assert(model.address_rows()[i as int] == (Some(layer.ptrs[i as int].0), name@, datatype@));
        flat.push((Some(layer.ptrs[i].0), name, datatype));
        assert(entries_view(flat@) =~= before.push((Some(layer.ptrs[i as int].0), name@, datatype@)));
        i += 1;
        assert(entries_view(flat@) =~= model.address_rows().take(i as int));
    }
    assert(model.address_rows().take(i as int) =~= model.address_rows());
    let mut k: usize = 0;
    while k < layer.types.len()
        invariant
            k <= layer.types.len(),
            model == layer@,
            entries_view(flat@) == model.address_rows() + model.name_rows(k as int),
        decreases layer.types.len() - k,
    {
        let bound = names_address(&layer.ptrs, layer.types[k].0.as_str());
        proof {
            let name = model.types[k as int].0;
            if bound {
                let w = choose|w: int| 0 <= w < layer.ptrs.len() && layer.ptrs@[w].1@ == name;
                assert(model.ptrs[w].1 == name);
            } else {
                assert forall|w: int| 0 <= w < model.ptrs.len() implies model.ptrs[w].1 != name by {
                    assert(layer.ptrs@[w].1@ != name);
                }
            }
            assert(bound == model.names_address(name));
        }
        let ghost before = entries_view(flat@);
        if !bound {
            let name = layer.types[k].0.clone();
            let datatype = layer.types[k].1.clone();
            flat.push((None, name, datatype));
            assert(entries_view(flat@) =~= before.push((None, name@, datatype@)));
            assert(model.types[k as int] == (name@, datatype@));
        }
        k += 1;
        assert(entries_view(flat@) =~= model.address_rows() + model.name_rows(k as int));
    }
    flat
}

/// Inserting a name with a type keeps a layer well formed.
pub proof fn lemma_insert_name_wf(layer: LayerModel, name: Seq<char>, datatype: TypeModel)
    requires
        layer.wf(),
    ensures
        layer.insert_name(name, datatype).wf(),
{
    let after = layer.insert_name(name, datatype);
    lemma_assoc_put(layer.types, name, datatype, name);
    assert forall|i: int| 0 <= i < after.ptrs.len() implies (#[trigger] assoc_index(
        after.types,
        after.ptrs[i].1,
    )).is_some() by {
        assert(assoc_index(layer.types, layer.ptrs[i].1).is_some());
        lemma_assoc_put(layer.types, name, datatype, layer.ptrs[i].1);
    }
}

/// Inserting an address with a name and a type keeps a layer well formed.
pub proof fn lemma_insert_ptr_wf(layer: LayerModel, ptr: u32, name: Seq<char>, datatype: TypeModel)
    requires
        layer.wf(),
    ensures
        layer.insert_ptr(ptr, name, datatype).wf(),
{
    let after = layer.insert_ptr(ptr, name, datatype);
    lemma_assoc_put(layer.types, name, datatype, name);
    lemma_assoc_put(layer.ptrs, ptr, name, ptr);
    lemma_assoc_index(layer.ptrs, ptr);
    assert forall|i: int| 0 <= i < after.ptrs.len() implies (#[trigger] assoc_index(
        after.types,
        after.ptrs[i].1,
    )).is_some() by {
        if after.ptrs[i].1 != name {
            assert(i < layer.ptrs.len());
            assert(after.ptrs[i] == layer.ptrs[i]);
            assert(assoc_index(layer.types, layer.ptrs[i].1).is_some());
            lemma_assoc_put(layer.types, name, datatype, layer.ptrs[i].1);
        }
    }
}

/// Shadowing: a name that has a type in an outer layer and is given
/// another in a new inner layer is found with the inner type; once the
/// inner layer is popped, it is found with the outer type again.
pub proof fn lemma_shadowing(scope: ScopeModel, name: Seq<char>, outer: TypeModel, inner: TypeModel)
    requires
        scope.wf(),
        scope.layers.len() > 0,
    ensures
        scope.insert_name(name, outer).lookup_name(name) == Some(outer),
        scope.insert_name(name, outer).push().insert_name(name, inner).lookup_name(name) == Some(
            inner,
        ),
        scope.insert_name(name, outer).push().insert_name(name, inner).pop().lookup_name(name)
            == Some(outer),
{
    let s1 = scope.insert_name(name, outer);
    let s2 = s1.push();
    let s3 = s2.insert_name(name, inner);
    assert(scope.layers.last().wf());
    lemma_assoc_put(scope.layers.last().types, name, outer, name);
    lemma_assoc_put(LayerModel::empty().types, name, inner, name);
    assert(s2.layers.last() == LayerModel::empty());
    assert(s3.pop().layers =~= s1.layers);
}

} // verus!
