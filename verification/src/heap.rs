//! The heap and the one object through which it is reached.
use crate::bytecode::{ByteCode, ByteCodeView, InstructionStream};
use crate::dict::Dict;
use crate::error::{alloc_error, RuntimeError, RuntimeErrorView};
use crate::list::List;
use crate::memory::{AllocError, Allocator, Arena, ArenaView, Identity, Ptr};
use crate::pair::Pair;
use crate::symbol::Symbol;
use crate::taggedptr::{NumberObject, Value};
use crate::text::Text;
use vstd::prelude::*;

verus! {

broadcast use {Ptr::lemma_identity, Ptr::lemma_at_index};

/// The heap as contracts speak of it: the names of the interned symbols
/// with the number of the identity that their handles carry, and one arena
/// for each type of object.
pub struct HeapView {
    pub symbol_arena: usize,
    pub symbols: Seq<Seq<char>>,
    pub pairs: ArenaView<Pair>,
    pub numbers: ArenaView<NumberObject>,
    pub texts: ArenaView<Seq<char>>,
    pub lists: ArenaView<Seq<Value>>,
    pub dicts: ArenaView<Map<usize, Value>>,
    pub code: ArenaView<ByteCodeView>,
    pub streams: ArenaView<InstructionStream>,
}

impl HeapView {
    /// Whether `value` is an immediate or names an object of this heap.
    /// Functions and call frames are not yet objects of the heap, so every
    /// such handle passes.
    pub open spec fn valid(self, value: Value) -> bool {
        match value {
            Value::Nil => true,
            Value::Symbol(p) => self.has_symbol(p),
            Value::Pair(p) => self.has_pair(p),
            Value::Number(p) => self.numbers.names(p.arena(), p.index()),
            Value::Text(p) => self.texts.names(p.arena(), p.index()),
            Value::List(p) => self.has_list(p),
            Value::Dict(p) => self.has_dict(p),
            Value::ByteCode(p) => self.has_code(p),
            Value::Function(_) => true,
            Value::CallFrame(_) => true,
        }
    }

    /// Whether the heap holds nothing yet, and each of its arenas has a
    /// capacity of `arena_size` bytes.
    pub open spec fn is_empty(self, arena_size: nat) -> bool {
        &&& self.symbols.len() == 0
        &&& self.pairs.len() == 0 && self.pairs.size == arena_size && self.pairs.bump == 0
        &&& self.numbers.len() == 0 && self.numbers.size == arena_size && self.numbers.bump == 0
        &&& self.texts.len() == 0 && self.texts.size == arena_size && self.texts.bump == 0
        &&& self.lists.len() == 0 && self.lists.size == arena_size && self.lists.bump == 0
        &&& self.dicts.len() == 0 && self.dicts.size == arena_size && self.dicts.bump == 0
        &&& self.code.len() == 0 && self.code.size == arena_size && self.code.bump == 0
        &&& self.streams.len() == 0 && self.streams.size == arena_size && self.streams.bump == 0
    }

    /// Whether `list` names a list of this heap.
    pub open spec fn has_list(self, list: Ptr<List>) -> bool {
        self.lists.names(list.arena(), list.index())
    }

    /// Whether `dict` names a dictionary of this heap.
    pub open spec fn has_dict(self, dict: Ptr<Dict>) -> bool {
        self.dicts.names(dict.arena(), dict.index())
    }

    /// Whether `code` names a bytecode object of this heap.
    pub open spec fn has_code(self, code: Ptr<ByteCode>) -> bool {
        self.code.names(code.arena(), code.index())
    }

    /// Whether `stream` names an instruction stream of this heap.
    pub open spec fn has_stream(self, stream: Ptr<InstructionStream>) -> bool {
        self.streams.names(stream.arena(), stream.index())
    }

    /// Whether `pair` names a pair of this heap.
    pub open spec fn has_pair(self, pair: Ptr<Pair>) -> bool {
        self.pairs.names(pair.arena(), pair.index())
    }

    /// Whether `symbol` names a symbol of this heap.
    pub open spec fn has_symbol(self, symbol: Ptr<Symbol>) -> bool {
        symbol.arena() == self.symbol_arena && symbol.index() < self.symbols.len()
    }

    /// No name is interned twice, every value that an object holds is valid
    /// in this heap, and every address of an instruction fits an array size.
    pub open spec fn wf(self) -> bool {
        &&& self.symbols.len() <= usize::MAX
        &&& forall|i: int, j: int|
            0 <= i < j < self.symbols.len() ==> #[trigger] self.symbols[i]
                != #[trigger] self.symbols[j]
        &&& forall|i: int|
            0 <= i < self.pairs.len() ==> self.valid((#[trigger] self.pairs.objects[i]).first)
                && self.valid(self.pairs.objects[i].second)
        &&& forall|i: int, j: int|
            0 <= i < self.lists.len() && 0 <= j < self.lists.objects[i].len() ==> self.valid(
                #[trigger] self.lists.objects[i][j],
            )
        &&& forall|i: int, k: usize|
            0 <= i < self.dicts.len() && self.dicts.objects[i].contains_key(k) ==> self.valid(
                #[trigger] self.dicts.objects[i][k],
            )
        &&& forall|i: int, j: int|
            0 <= i < self.code.len() && 0 <= j < self.code.objects[i].literals.len()
                ==> self.valid(#[trigger] self.code.objects[i].literals[j])
        &&& forall|i: int|
            0 <= i < self.streams.len() ==> self.has_code(
                (#[trigger] self.streams.objects[i]).code,
            )
        &&& forall|i: int|
            0 <= i < self.code.len() ==> (#[trigger] self.code.objects[i]).code.len() <= u32::MAX
    }

    /// The ordinal of the symbol named `name` once it is interned: where the
    /// name is interned already, the ordinal it has; else the next one.
    pub open spec fn symbol_index(self, name: Seq<char>) -> usize {
        if self.symbols.contains(name) {
            self.symbols.index_of(name) as usize
        } else {
            self.symbols.len() as usize
        }
    }

    /// The symbol named `name`.
    pub open spec fn symbol(self, name: Seq<char>) -> Value {
        Value::Symbol(Ptr::at(self.symbol_arena, self.symbol_index(name)))
    }

    /// The heap once `name` is interned: unchanged where it is already.
    pub open spec fn intern(self, name: Seq<char>) -> HeapView {
        if self.symbols.contains(name) {
            self
        } else {
            HeapView { symbols: self.symbols.push(name), ..self }
        }
    }

    /// Interning keeps a heap well-formed and every valid value valid.
    pub proof fn lemma_intern(self, name: Seq<char>)
        requires
            self.wf(),
            self.intern(name).symbols.len() <= usize::MAX,
        ensures
            self.intern(name).wf(),
            self.intern(name).valid(self.symbol(name)),
            self.intern(name).symbols[self.symbol_index(name) as int] == name,
            forall|v: Value| self.valid(v) ==> #[trigger] self.intern(name).valid(v),
    {
        let after = self.intern(name);
        if !self.symbols.contains(name) {
            assert forall|i: int, j: int| 0 <= i < j < after.symbols.len() implies after.symbols[i]
                != after.symbols[j] by {
                if j == self.symbols.len() {
                    if self.symbols[i] == name {
                        assert(self.symbols.contains(name));
                    }
                }
            }
        }
    }

    /// What a change does not touch stays sound: where every value and
    /// every bytecode handle that was valid is valid in `after`, each arena
    /// of `after` that holds what it held meets its part of `wf`.
    pub proof fn lemma_untouched(self, after: HeapView)
        requires
            self.wf(),
            forall|v: Value| self.valid(v) ==> #[trigger] after.valid(v),
            forall|c: Ptr<ByteCode>| self.has_code(c) ==> #[trigger] after.has_code(c),
        ensures
            after.pairs.objects == self.pairs.objects ==> forall|i: int|
                0 <= i < after.pairs.len() ==> after.valid(
                    (#[trigger] after.pairs.objects[i]).first,
                ) && after.valid(after.pairs.objects[i].second),
            after.lists.objects == self.lists.objects ==> forall|i: int, j: int|
                0 <= i < after.lists.len() && 0 <= j < after.lists.objects[i].len()
                    ==> after.valid(#[trigger] after.lists.objects[i][j]),
            after.dicts.objects == self.dicts.objects ==> forall|i: int, k: usize|
                0 <= i < after.dicts.len() && after.dicts.objects[i].contains_key(k)
                    ==> after.valid(#[trigger] after.dicts.objects[i][k]),
            after.code.objects == self.code.objects ==> forall|i: int, j: int|
                0 <= i < after.code.len() && 0 <= j < after.code.objects[i].literals.len()
                    ==> after.valid(#[trigger] after.code.objects[i].literals[j]),
            after.streams.objects == self.streams.objects ==> forall|i: int|
                0 <= i < after.streams.len() ==> after.has_code(
                    (#[trigger] after.streams.objects[i]).code,
                ),
    {
        if after.pairs.objects == self.pairs.objects {
            assert forall|i: int| 0 <= i < after.pairs.len() implies after.valid(
                (#[trigger] after.pairs.objects[i]).first,
            ) && after.valid(after.pairs.objects[i].second) by {
                assert(self.valid(self.pairs.objects[i].first));
            }
        }
        if after.lists.objects == self.lists.objects {
            assert forall|i: int, j: int|
                0 <= i < after.lists.len() && 0 <= j < after.lists.objects[i].len()
                    implies after.valid(#[trigger] after.lists.objects[i][j]) by {
                assert(self.valid(self.lists.objects[i][j]));
            }
        }
        if after.dicts.objects == self.dicts.objects {
            assert forall|i: int, k: usize|
                0 <= i < after.dicts.len() && after.dicts.objects[i].contains_key(
                    k,
                ) implies after.valid(#[trigger] after.dicts.objects[i][k]) by {
                assert(self.valid(self.dicts.objects[i][k]));
            }
        }
        if after.code.objects == self.code.objects {
            assert forall|i: int, j: int|
                0 <= i < after.code.len() && 0 <= j < after.code.objects[i].literals.len()
                    implies after.valid(#[trigger] after.code.objects[i].literals[j]) by {
                assert(self.valid(self.code.objects[i].literals[j]));
            }
        }
        if after.streams.objects == self.streams.objects {
            assert forall|i: int| 0 <= i < after.streams.len() implies after.has_code(
                (#[trigger] after.streams.objects[i]).code,
            ) by {
                assert(self.has_code(self.streams.objects[i].code));
            }
        }
    }

    /// A pair overwritten with valid values leaves the heap well-formed.
    pub proof fn lemma_with_pair(self, pair: Ptr<Pair>, cell: Pair)
        requires
            self.wf(),
            self.has_pair(pair),
            self.valid(cell.first),
            self.valid(cell.second),
        ensures
            self.with_pair(pair, cell).wf(),
            forall|v: Value| self.valid(v) == #[trigger] self.with_pair(pair, cell).valid(v),
    {
        let after = self.with_pair(pair, cell);
        self.lemma_untouched(after);
        assert forall|i: int| 0 <= i < after.pairs.len() implies after.valid(
            (#[trigger] after.pairs.objects[i]).first,
        ) && after.valid(after.pairs.objects[i].second) by {
            if i != pair.index() {
                assert(self.valid(self.pairs.objects[i].first));
            }
        }
    }

    /// A pair of valid values, once allocated, leaves the heap well-formed
    /// and is itself valid in it.
    pub proof fn lemma_cons(self, cell: Pair)
        requires
            self.wf(),
            self.valid(cell.first),
            self.valid(cell.second),
            self.pairs.len() < usize::MAX,
        ensures
            self.alloc_pair(cell).wf(),
            self.alloc_pair(cell).valid(self.next_pair()),
            forall|v: Value| self.valid(v) ==> #[trigger] self.alloc_pair(cell).valid(v),
    {
        let after = self.alloc_pair(cell);
        self.lemma_untouched(after);
        assert forall|i: int| 0 <= i < after.pairs.len() implies after.valid(
            (#[trigger] after.pairs.objects[i]).first,
        ) && after.valid(after.pairs.objects[i].second) by {
            if i < self.pairs.len() {
                assert(self.valid(self.pairs.objects[i].first));
            }
        }
    }

    /// A list overwritten with valid items leaves the heap well-formed.
    pub proof fn lemma_with_list(self, list: Ptr<List>, items: Seq<Value>)
        requires
            self.wf(),
            self.has_list(list),
            forall|j: int| 0 <= j < items.len() ==> self.valid(#[trigger] items[j]),
        ensures
            self.with_list(list, items).wf(),
            forall|v: Value| self.valid(v) == #[trigger] self.with_list(list, items).valid(v),
    {
        let after = self.with_list(list, items);
        self.lemma_untouched(after);
        assert forall|i: int, j: int|
            0 <= i < after.lists.len() && 0 <= j < after.lists.objects[i].len() implies after.valid(
            #[trigger] after.lists.objects[i][j],
        ) by {
            if i != list.index() {
                assert(self.valid(self.lists.objects[i][j]));
            } else {
                assert(self.valid(items[j]));
            }
        }
    }

    /// A dictionary overwritten with valid values leaves the heap
    /// well-formed.
    pub proof fn lemma_with_dict(self, dict: Ptr<Dict>, bindings: Map<usize, Value>)
        requires
            self.wf(),
            self.has_dict(dict),
            forall|k: usize| bindings.contains_key(k) ==> self.valid(#[trigger] bindings[k]),
        ensures
            self.with_dict(dict, bindings).wf(),
            forall|v: Value| self.valid(v) == #[trigger] self.with_dict(dict, bindings).valid(v),
    {
        let after = self.with_dict(dict, bindings);
        self.lemma_untouched(after);
        assert forall|i: int, k: usize|
            0 <= i < after.dicts.len() && after.dicts.objects[i].contains_key(
                k,
            ) implies after.valid(#[trigger] after.dicts.objects[i][k]) by {
            if i != dict.index() {
                assert(self.valid(self.dicts.objects[i][k]));
            } else {
                assert(self.valid(bindings[k]));
            }
        }
    }

    /// A stream overwritten with one over bytecode of this heap leaves the
    /// heap well-formed.
    pub proof fn lemma_with_stream(self, stream: Ptr<InstructionStream>, state: InstructionStream)
        requires
            self.wf(),
            self.has_stream(stream),
            self.has_code(state.code),
        ensures
            self.with_stream(stream, state).wf(),
            forall|v: Value| self.valid(v) == #[trigger] self.with_stream(stream, state).valid(v),
    {
        let after = self.with_stream(stream, state);
        self.lemma_untouched(after);
        assert forall|i: int| 0 <= i < after.streams.len() implies after.has_code(
            (#[trigger] after.streams.objects[i]).code,
        ) by {
            if i != stream.index() {
                assert(self.has_code(self.streams.objects[i].code));
            }
        }
    }

    /// The pair that `pair` names.
    pub open spec fn pair(self, pair: Ptr<Pair>) -> Pair {
        self.pairs.objects[pair.index() as int]
    }

    /// The items of the list that `list` names.
    pub open spec fn list(self, list: Ptr<List>) -> Seq<Value> {
        self.lists.objects[list.index() as int]
    }

    /// The bindings of the dictionary that `dict` names.
    pub open spec fn dict(self, dict: Ptr<Dict>) -> Map<usize, Value> {
        self.dicts.objects[dict.index() as int]
    }

    /// The bytecode that `code` names.
    pub open spec fn bytecode(self, code: Ptr<ByteCode>) -> ByteCodeView {
        self.code.objects[code.index() as int]
    }

    /// The instruction stream that `stream` names.
    pub open spec fn stream(self, stream: Ptr<InstructionStream>) -> InstructionStream {
        self.streams.objects[stream.index() as int]
    }

    /// The heap with `items` as the list that `list` names.
    pub open spec fn with_list(self, list: Ptr<List>, items: Seq<Value>) -> HeapView {
        HeapView { lists: self.lists.update(list.index() as int, items), ..self }
    }

    /// The heap with `bindings` as the dictionary that `dict` names.
    pub open spec fn with_dict(self, dict: Ptr<Dict>, bindings: Map<usize, Value>) -> HeapView {
        HeapView { dicts: self.dicts.update(dict.index() as int, bindings), ..self }
    }

    /// The heap with `state` as the instruction stream that `stream` names.
    pub open spec fn with_stream(
        self,
        stream: Ptr<InstructionStream>,
        state: InstructionStream,
    ) -> HeapView {
        HeapView { streams: self.streams.update(stream.index() as int, state), ..self }
    }

    /// The value that names the pair allocated next.
    pub open spec fn next_pair(self) -> Value {
        Value::Pair(Ptr::at(self.pairs.identity, self.pairs.len() as usize))
    }

    /// The heap after the allocation of the pair `cell`.
    pub open spec fn alloc_pair(self, cell: Pair) -> HeapView {
        HeapView { pairs: self.pairs.push(cell), ..self }
    }

    /// The heap with `cell` as the pair that `pair` names.
    pub open spec fn with_pair(self, pair: Ptr<Pair>, cell: Pair) -> HeapView {
        HeapView { pairs: self.pairs.update(pair.index() as int, cell), ..self }
    }
}

/// The heap, and the sole way to it: symbols are interned here, objects are
/// allocated here, and every read and write of an object goes through here.
pub struct MutatorView {
    names: Identity,
    symbols: Vec<Symbol>,
    pairs: Arena<Pair>,
    numbers: Arena<NumberObject>,
    texts: Arena<Text>,
    lists: Arena<List>,
    dicts: Arena<Dict>,
    code: Arena<ByteCode>,
    streams: Arena<InstructionStream>,
}

impl View for MutatorView {
    type V = HeapView;

    closed spec fn view(&self) -> HeapView {
        HeapView {
            symbol_arena: self.names.number(),
            symbols: Seq::new(self.symbols@.len(), |i: int| self.symbols@[i]@),
            pairs: self.pairs@,
            numbers: self.numbers@,
            texts: self.texts@,
            lists: self.lists@,
            dicts: self.dicts@,
            code: self.code@,
            streams: self.streams@,
        }
    }
}

impl MutatorView {
    /// The arenas are consistent, every container keeps its own bounds, and
    /// the heap they make up is well-formed.
    pub closed spec fn wf(&self) -> bool {
        &&& self.pairs.wf()
        &&& self.numbers.wf()
        &&& self.texts.wf()
        &&& self.lists.wf()
        &&& self.dicts.wf()
        &&& self.code.wf()
        &&& self.streams.wf()
        &&& forall|i: int|
            0 <= i < self.lists.contents().len() ==> (#[trigger] self.lists.contents()[i]).wf()
        &&& forall|i: int|
            0 <= i < self.code.contents().len() ==> (#[trigger] self.code.contents()[i]).wf()
        &&& self@.wf()
    }

    /// A well-formed heap has a well-formed view.
    pub proof fn lemma_view_wf(&self)
        requires
            self.wf(),
        ensures
            self@.wf(),
    {
    }

    /// An empty heap in which each arena has a capacity of `arena_size`
    /// bytes.
    pub fn new(arena_size: usize) -> (mem: MutatorView)
        ensures
            mem.wf(),
            mem@.is_empty(arena_size as nat),
    {
        MutatorView {
            names: Identity::fresh(),
            symbols: Vec::new(),
            pairs: Arena::new(arena_size),
            numbers: Arena::new(arena_size),
            texts: Arena::new(arena_size),
            lists: Arena::new(arena_size),
            dicts: Arena::new(arena_size),
            code: Arena::new(arena_size),
            streams: Arena::new(arena_size),
        }
    }

    /// The symbol named `name`: the one interned under that name, and a new
    /// one where there is none. Equal names give the identical symbol.
    pub fn lookup_sym(&mut self, name: &str) -> (value: Value)
        requires
            old(self).wf(),
        ensures
            final(self).wf(),
            final(self)@ == old(self)@.intern(name@),
            value == old(self)@.symbol(name@),
            final(self)@.valid(value),
    {
        let mut i: usize = 0;
        while i < self.symbols.len()
            invariant
                *self == *old(self),
                self.wf(),
                i <= self.symbols@.len(),
                forall|j: int| 0 <= j < i ==> self@.symbols[j] != name@,
            decreases self.symbols@.len() - i,
        {
            if self.symbols[i].is_named(name) {
                assert(self@.symbols[i as int] == name@);
                assert(self@.symbols.contains(name@));
                proof {
                    self@.lemma_intern(name@);
                }
                return Value::Symbol(Ptr::from_index(self.names.get(), i));
            }
            i += 1;
        }
        assert(!self@.symbols.contains(name@));
        self.symbols.push(Symbol::new(name));
        let count = self.symbols.len();
        assert(self@.symbols =~= old(self)@.symbols.push(name@));
        proof {
            assert(count == old(self)@.intern(name@).symbols.len());
            old(self)@.lemma_intern(name@);
        }
        Value::Symbol(Ptr::from_index(self.names.get(), i))
    }

    /// The name of `symbol`.
    pub fn symbol_name(&self, symbol: Ptr<Symbol>) -> (name: &str)
        requires
            self.wf(),
            self@.has_symbol(symbol),
        ensures
            name@ == self@.symbols[symbol.index() as int],
    {
        self.symbols[symbol.ordinal()].as_str()
    }

    /// Whether `value` is the symbol named `name`.
    pub fn is_sym(&self, value: Value, name: &str) -> (same: bool)
        requires
            self.wf(),
            self@.valid(value),
        ensures
            same == (value matches Value::Symbol(s) && self@.symbols[s.index() as int] == name@),
    {
        match value {
            Value::Symbol(s) => self.symbols[s.ordinal()].is_named(name),
            _ => false,
        }
    }

    /// The number of pairs in the heap.
    pub fn pair_count(&self) -> (n: usize)
        ensures
            n == self@.pairs.len(),
    {
        self.pairs.len()
    }

    /// The pair that `pair` names.
    pub fn pair(&self, pair: Ptr<Pair>) -> (cell: Pair)
        requires
            self.wf(),
            self@.has_pair(pair),
        ensures
            cell == self@.pair(pair),
            self@.valid(cell.first),
            self@.valid(cell.second),
    {
        *self.pairs.get(pair)
    }

    /// Allocates `pair` and returns the value that names it, or fails with
    /// `OutOfMemory`, and changes nothing, where the arena of pairs is full.
    pub fn alloc_pair(&mut self, pair: Pair) -> (r: Result<Value, RuntimeError>)
        requires
            old(self).wf(),
            old(self)@.valid(pair.first),
            old(self)@.valid(pair.second),
        ensures
            final(self).wf(),
            old(self)@.pairs.has_room() ==> r is Ok && r->Ok_0 == old(self)@.next_pair() && final(self)@ == old(self)@.alloc_pair(pair) && final(self)@.valid(r->Ok_0),
            !old(self)@.pairs.has_room() ==> r is Err && r->Err_0@ == alloc_error(
                AllocError::OutOfMemory,
            ) && final(self)@ == old(self)@,
    {
        match self.pairs.allocate(pair) {
            Ok(ptr) => {
                let count = self.pairs.len();
                assert(self@.pairs.objects =~= old(self)@.pairs.objects.push(pair));
                proof {
                    assert(count == old(self)@.pairs.len() + 1);
                    old(self)@.lemma_cons(pair);
                }
                Ok(Value::Pair(ptr))
            },
            Err(e) => Err(RuntimeError::from(e)),
        }
    }

    /// Overwrites the first slot of the pair that `pair` names.
    pub fn set_first(&mut self, pair: Ptr<Pair>, value: Value)
        requires
            old(self).wf(),
            old(self)@.has_pair(pair),
            old(self)@.valid(value),
        ensures
            final(self).wf(),
            final(self)@ == old(self)@.with_pair(
                pair,
                Pair { first: value, second: old(self)@.pair(pair).second },
            ),
    {
        let cell = self.pair(pair);
        self.pairs.set(pair, Pair { first: value, second: cell.second });
        assert(self@.pairs.objects =~= old(self)@.pairs.objects.update(
            pair.index() as int,
            Pair { first: value, second: cell.second },
        ));
        proof {
            old(self)@.lemma_with_pair(pair, Pair { first: value, second: cell.second });
        }
    }

    /// Overwrites the second slot of the pair that `pair` names.
    pub fn set_second(&mut self, pair: Ptr<Pair>, value: Value)
        requires
            old(self).wf(),
            old(self)@.has_pair(pair),
            old(self)@.valid(value),
        ensures
            final(self).wf(),
            final(self)@ == old(self)@.with_pair(
                pair,
                Pair { first: old(self)@.pair(pair).first, second: value },
            ),
    {
        let cell = self.pair(pair);
        self.pairs.set(pair, Pair { first: cell.first, second: value });
        assert(self@.pairs.objects =~= old(self)@.pairs.objects.update(
            pair.index() as int,
            Pair { first: cell.first, second: value },
        ));
        proof {
            old(self)@.lemma_with_pair(pair, Pair { first: cell.first, second: value });
        }
    }

    /// Allocates a number and returns the value that names it, or fails
    /// with `OutOfMemory`, and changes nothing, where the arena of numbers
    /// is full.
    pub fn alloc_number(&mut self, number: i64) -> (r: Result<Value, RuntimeError>)
        requires
            old(self).wf(),
        ensures
            final(self).wf(),
            old(self)@.numbers.has_room() ==> r is Ok && r->Ok_0 == Value::Number(
                Ptr::at(old(self)@.numbers.identity, old(self)@.numbers.len() as usize),
            ) && final(self)@ == (HeapView {
                numbers: old(self)@.numbers.push(NumberObject { value: number }),
                ..old(self)@
            }) && final(self)@.valid(r->Ok_0),
            !old(self)@.numbers.has_room() ==> r is Err && r->Err_0@ == alloc_error(
                AllocError::OutOfMemory,
            ) && final(self)@ == old(self)@,
    {
        match self.numbers.allocate(NumberObject { value: number }) {
            Ok(ptr) => {
                assert(self@.numbers.objects =~= old(self)@.numbers.objects.push(
                    NumberObject { value: number },
                ));
                Ok(Value::Number(ptr))
            },
            Err(e) => Err(RuntimeError::from(e)),
        }
    }

    /// The number that `number` names.
    pub fn number(&self, number: Ptr<NumberObject>) -> (n: i64)
        requires
            self.wf(),
            self@.valid(Value::Number(number)),
        ensures
            n == self@.numbers.objects[number.index() as int].value,
    {
        self.numbers.get(number).value
    }

    /// Allocates `text` and returns the value that names it, or fails with
    /// `OutOfMemory`, and changes nothing, where the arena of texts is full.
    pub fn alloc_text(&mut self, text: Text) -> (r: Result<Value, RuntimeError>)
        requires
            old(self).wf(),
        ensures
            final(self).wf(),
            old(self)@.texts.has_room() ==> r is Ok && r->Ok_0 == Value::Text(
                Ptr::at(old(self)@.texts.identity, old(self)@.texts.len() as usize),
            ) && final(self)@ == (HeapView { texts: old(self)@.texts.push(text@), ..old(self)@ })
                && final(self)@.valid(r->Ok_0),
            !old(self)@.texts.has_room() ==> r is Err && r->Err_0@ == alloc_error(
                AllocError::OutOfMemory,
            ) && final(self)@ == old(self)@,
    {
        match self.texts.allocate(text) {
            Ok(ptr) => {
                assert(self@.texts.objects =~= old(self)@.texts.objects.push(text@));
                Ok(Value::Text(ptr))
            },
            Err(e) => Err(RuntimeError::from(e)),
        }
    }

    /// The text that `text` names.
    pub fn text(&self, text: Ptr<Text>) -> (t: &Text)
        requires
            self.wf(),
            self@.valid(Value::Text(text)),
        ensures
            t@ == self@.texts.objects[text.index() as int],
    {
        self.texts.get(text)
    }

    /// Allocates an empty list and returns its handle, or fails with
    /// `OutOfMemory`, and changes nothing, where the arena of lists is full.
    pub fn alloc_list(&mut self) -> (r: Result<Ptr<List>, RuntimeError>)
        requires
            old(self).wf(),
        ensures
            final(self).wf(),
            old(self)@.lists.has_room() ==> r is Ok && r->Ok_0 == Ptr::<List>::at(
                old(self)@.lists.identity,
                old(self)@.lists.len() as usize,
            ) && final(self)@ == (HeapView {
                lists: old(self)@.lists.push(Seq::<Value>::empty()),
                ..old(self)@
            }) && final(self)@.has_list(r->Ok_0),
            !old(self)@.lists.has_room() ==> r is Err && r->Err_0@ == alloc_error(
                AllocError::OutOfMemory,
            ) && final(self)@ == old(self)@,
    {
        match self.lists.allocate(List::new()) {
            Ok(ptr) => {
                assert(self@.lists.objects =~= old(self)@.lists.objects.push(
                    Seq::<Value>::empty(),
                ));
                Ok(ptr)
            },
            Err(e) => Err(RuntimeError::from(e)),
        }
    }

    /// The list that `list` names.
    pub fn list(&self, list: Ptr<List>) -> (l: &List)
        requires
            self.wf(),
            self@.has_list(list),
        ensures
            l.wf(),
            l@ == self@.list(list),
            forall|i: int| 0 <= i < l@.len() ==> self@.valid(#[trigger] l@[i]),
    {
        let l = self.lists.get(list);
        assert(l@ == self@.lists.objects[list.index() as int]);
        assert forall|i: int| 0 <= i < l@.len() implies self@.valid(#[trigger] l@[i]) by {
            assert(self@.valid(self@.lists.objects[list.index() as int][i]));
        }
        l
    }

    /// Overwrites item `index` of the list that `list` names, or fails with
    /// a bounds error and changes nothing.
    pub fn list_set(&mut self, list: Ptr<List>, index: u32, item: Value) -> (r: Result<
        (),
        RuntimeError,
    >)
        requires
            old(self).wf(),
            old(self)@.has_list(list),
            old(self)@.valid(item),
        ensures
            final(self).wf(),
            index < old(self)@.list(list).len() ==> r is Ok && final(self)@ == old(self)@.with_list(list, old(self)@.list(list).update(index as int, item)),
            index >= old(self)@.list(list).len() ==> r is Err && r->Err_0@
                == crate::list::bounds_error() && final(self)@ == old(self)@,
    {
        let ghost before = self@.list(list);
        let current = self.list(list);
        let r = self.lists.get_mut(list).set(index, item);
        proof {
            if index < old(self)@.list(list).len() {
                assert(self@.lists.objects =~= old(self)@.lists.objects.update(
                    list.index() as int,
                    old(self)@.list(list).update(index as int, item),
                ));
                old(self)@.lemma_with_list(list, before.update(index as int, item));
            } else {
                assert(self@.lists.objects =~= old(self)@.lists.objects);
            }
        }
        r
    }

    /// Appends `item` to the list that `list` names, or fails with
    /// `BadAllocationRequest`, and changes nothing, where the list cannot
    /// grow.
    pub fn list_push(&mut self, list: Ptr<List>, item: Value) -> (r: Result<(), RuntimeError>)
        requires
            old(self).wf(),
            old(self)@.has_list(list),
            old(self)@.valid(item),
        ensures
            final(self).wf(),
            old(self)@.list(list).len() < u32::MAX ==> r is Ok && final(self)@ == old(self)@.with_list(list, old(self)@.list(list).push(item)),
            old(self)@.list(list).len() >= u32::MAX ==> r is Err && r->Err_0@
                == crate::list::full_error() && final(self)@ == old(self)@,
    {
        let ghost before = self@.list(list);
        let current = self.list(list);
        let r = self.lists.get_mut(list).push(item);
        proof {
            if old(self)@.list(list).len() < u32::MAX {
                assert(self@.lists.objects =~= old(self)@.lists.objects.update(
                    list.index() as int,
                    old(self)@.list(list).push(item),
                ));
                old(self)@.lemma_with_list(list, before.push(item));
            } else {
                assert(self@.lists.objects =~= old(self)@.lists.objects);
            }
        }
        r
    }

    /// Allocates an empty dictionary and returns its handle, or fails with
    /// `OutOfMemory`, and changes nothing, where the arena of dictionaries
    /// is full.
    pub fn alloc_dict(&mut self) -> (r: Result<Ptr<Dict>, RuntimeError>)
        requires
            old(self).wf(),
        ensures
            final(self).wf(),
            old(self)@.dicts.has_room() ==> r is Ok && r->Ok_0 == Ptr::<Dict>::at(
                old(self)@.dicts.identity,
                old(self)@.dicts.len() as usize,
            ) && final(self)@ == (HeapView {
                dicts: old(self)@.dicts.push(Map::<usize, Value>::empty()),
                ..old(self)@
            }) && final(self)@.has_dict(r->Ok_0),
            !old(self)@.dicts.has_room() ==> r is Err && r->Err_0@ == alloc_error(
                AllocError::OutOfMemory,
            ) && final(self)@ == old(self)@,
    {
        match self.dicts.allocate(Dict::new()) {
            Ok(ptr) => {
                assert(self@.dicts.objects =~= old(self)@.dicts.objects.push(
                    Map::<usize, Value>::empty(),
                ));
                Ok(ptr)
            },
            Err(e) => Err(RuntimeError::from(e)),
        }
    }

    /// The dictionary that `dict` names.
    pub fn dict(&self, dict: Ptr<Dict>) -> (d: &Dict)
        requires
            self.wf(),
            self@.has_dict(dict),
        ensures
            d@ == self@.dict(dict),
            forall|k: usize| d@.contains_key(k) ==> self@.valid(#[trigger] d@[k]),
    {
        let d = self.dicts.get(dict);
        assert(d@ == self@.dicts.objects[dict.index() as int]);
        assert forall|k: usize| d@.contains_key(k) implies self@.valid(#[trigger] d@[k]) by {
            assert(self@.valid(self@.dicts.objects[dict.index() as int][k]));
        }
        d
    }

    /// Binds `key` to `value` in the dictionary that `dict` names, or fails,
    /// and changes nothing, where `key` is no symbol.
    pub fn dict_assoc(&mut self, dict: Ptr<Dict>, key: Value, value: Value) -> (r: Result<
        (),
        RuntimeError,
    >)
        requires
            old(self).wf(),
            old(self)@.has_dict(dict),
            old(self)@.valid(value),
        ensures
            final(self).wf(),
            match key {
                Value::Symbol(s) => r is Ok && final(self)@ == old(self)@.with_dict(
                    dict,
                    old(self)@.dict(dict).insert(s.index(), value),
                ),
                _ => r is Err && r->Err_0@ == crate::dict::key_error() && final(self)@ == old(self)@,
            },
    {
        let ghost before = self@.dict(dict);
        let current = self.dict(dict);
        let r = self.dicts.get_mut(dict).assoc(key, value);
        proof {
            match key {
                Value::Symbol(s) => {
                    assert(self@.dicts.objects =~= old(self)@.dicts.objects.update(
                        dict.index() as int,
                        old(self)@.dict(dict).insert(s.index(), value),
                    ));
                    old(self)@.lemma_with_dict(dict, before.insert(s.index(), value));
                },
                _ => {
                    assert(self@.dicts.objects =~= old(self)@.dicts.objects);
                },
            }
        }
        r
    }

    /// Moves `bytecode` into the heap and returns its handle, or fails with
    /// `OutOfMemory`, and changes nothing, where the arena of bytecode is
    /// full.
    pub fn alloc_bytecode(&mut self, bytecode: ByteCode) -> (r: Result<Ptr<ByteCode>, RuntimeError>)
        requires
            old(self).wf(),
            bytecode.wf(),
            forall|i: int|
                0 <= i < bytecode@.literals.len() ==> old(self)@.valid(
                    #[trigger] bytecode@.literals[i],
                ),
        ensures
            final(self).wf(),
            old(self)@.code.has_room() ==> r is Ok && r->Ok_0 == Ptr::<ByteCode>::at(
                old(self)@.code.identity,
                old(self)@.code.len() as usize,
            ) && final(self)@ == (HeapView { code: old(self)@.code.push(bytecode@), ..old(self)@ })
                && final(self)@.has_code(r->Ok_0),
            !old(self)@.code.has_room() ==> r is Err && r->Err_0@ == alloc_error(
                AllocError::OutOfMemory,
            ) && final(self)@ == old(self)@,
    {
        let ghost view = bytecode@;
        proof {
            bytecode.lemma_wf_bounds();
        }
        match self.code.allocate(bytecode) {
            Ok(ptr) => {
                assert(self@.code.objects =~= old(self)@.code.objects.push(view));
                Ok(ptr)
            },
            Err(e) => Err(RuntimeError::from(e)),
        }
    }

    /// The bytecode that `code` names.
    pub fn bytecode(&self, code: Ptr<ByteCode>) -> (b: &ByteCode)
        requires
            self.wf(),
            self@.has_code(code),
        ensures
            b.wf(),
            b@ == self@.bytecode(code),
            forall|i: int| 0 <= i < b@.literals.len() ==> self@.valid(#[trigger] b@.literals[i]),
    {
        let b = self.code.get(code);
        assert(b@ == self@.code.objects[code.index() as int]);
        assert forall|i: int| 0 <= i < b@.literals.len() implies self@.valid(
            #[trigger] b@.literals[i],
        ) by {
            assert(self@.valid(self@.code.objects[code.index() as int].literals[i]));
        }
        b
    }

    /// Moves `stream` into the heap and returns its handle, or fails with
    /// `OutOfMemory`, and changes nothing, where the arena of streams is
    /// full.
    pub fn alloc_stream(&mut self, stream: InstructionStream) -> (r: Result<
        Ptr<InstructionStream>,
        RuntimeError,
    >)
        requires
            old(self).wf(),
            old(self)@.has_code(stream.code),
        ensures
            final(self).wf(),
            old(self)@.streams.has_room() ==> r is Ok && r->Ok_0 == Ptr::<InstructionStream>::at(
                old(self)@.streams.identity,
                old(self)@.streams.len() as usize,
            ) && final(self)@ == (HeapView {
                streams: old(self)@.streams.push(stream),
                ..old(self)@
            }) && final(self)@.has_stream(r->Ok_0),
            !old(self)@.streams.has_room() ==> r is Err && r->Err_0@ == alloc_error(
                AllocError::OutOfMemory,
            ) && final(self)@ == old(self)@,
    {
        match self.streams.allocate(stream) {
            Ok(ptr) => {
                assert(self@.streams.objects =~= old(self)@.streams.objects.push(stream));
                Ok(ptr)
            },
            Err(e) => Err(RuntimeError::from(e)),
        }
    }

    /// The state of the instruction stream that `stream` names.
    pub fn stream(&self, stream: Ptr<InstructionStream>) -> (state: InstructionStream)
        requires
            self.wf(),
            self@.has_stream(stream),
        ensures
            state == self@.stream(stream),
            self@.has_code(state.code),
    {
        *self.streams.get(stream)
    }

    /// Overwrites the state of the instruction stream that `stream` names.
    pub fn set_stream(&mut self, stream: Ptr<InstructionStream>, state: InstructionStream)
        requires
            old(self).wf(),
            old(self)@.has_stream(stream),
            old(self)@.has_code(state.code),
        ensures
            final(self).wf(),
            final(self)@ == old(self)@.with_stream(stream, state),
    {
        self.streams.set(stream, state);
        assert(self@.streams.objects =~= old(self)@.streams.objects.update(
            stream.index() as int,
            state,
        ));
        proof {
            old(self)@.lemma_with_stream(stream, state);
        }
    }

    /// The canonical `Nil`.
    pub fn nil(&self) -> (value: Value)
        ensures
            value == Value::Nil,
    {
        Value::Nil
    }
}

/// What a unit of work returned, as contracts speak of it: its output, or
/// its error by its view.
pub open spec fn work_outcome<T>(r: Result<T, RuntimeError>) -> Result<T, RuntimeErrorView> {
    match r {
        Ok(output) => Ok(output),
        Err(e) => Err(e@),
    }
}

/// A unit of work on the heap. The heap is lent to `run` for the length of
/// the work and no longer, so nothing that `run` does can hold on to it.
///
/// Whoever implements `run` answers for its contract: an implementation
/// that is not verified is believed to leave the heap well-formed, which it
/// does if it hands the heap's functions only values of this heap.
pub trait Mutator: Sized {
    type Input;

    type Output;

    /// What the work does: whether, started with `input` on the heap
    /// `before`, it can leave the heap `after` and end with `outcome`. An
    /// implementation that does not say what it does admits every heap and
    /// every outcome.
    open spec fn runs(
        &self,
        before: HeapView,
        input: Self::Input,
        after: HeapView,
        outcome: Result<Self::Output, RuntimeErrorView>,
    ) -> bool {
        true
    }

    /// Does the work. It is handed a well-formed heap and leaves one, and
    /// what it leaves and returns is what `runs` says of it.
    fn run(&self, mem: &mut MutatorView, input: Self::Input) -> (r: Result<
        Self::Output,
        RuntimeError,
    >)
        requires
            old(mem).wf(),
        ensures
            final(mem).wf(),
            self.runs(old(mem)@, input, final(mem)@, work_outcome(r)),
    ;
}

/// The number of bytes that each arena of a `Memory` made by `new` has.
pub const ARENA_SIZE: usize = 1048576;

/// The owner of a heap. The heap is reached only by handing a `Mutator` to
/// `mutate`.
pub struct Memory {
    heap: MutatorView,
}

impl View for Memory {
    type V = HeapView;

    closed spec fn view(&self) -> HeapView {
        self.heap@
    }
}

impl Memory {
    /// The heap is well-formed.
    pub closed spec fn wf(&self) -> bool {
        self.heap.wf()
    }

    /// A well-formed memory has a well-formed view.
    pub proof fn lemma_view_wf(&self)
        requires
            self.wf(),
        ensures
            self@.wf(),
    {
    }

    /// A memory with an empty heap.
    pub fn new() -> (memory: Memory)
        ensures
            memory.wf(),
            memory@.is_empty(ARENA_SIZE as nat),
    {
        Memory { heap: MutatorView::new(ARENA_SIZE) }
    }

    /// Runs `mutator` with `input` on the heap, this once, and returns what
    /// it returns: the heap is the one that this run of the work leaves, and
    /// the result is the one that it ends with.
    pub fn mutate<M: Mutator>(&mut self, mutator: &M, input: M::Input) -> (r: Result<
        M::Output,
        RuntimeError,
    >)
        requires
            old(self).wf(),
        ensures
            final(self).wf(),
            mutator.runs(old(self)@, input, final(self)@, work_outcome(r)),
    {
        mutator.run(&mut self.heap, input)
    }
}

} // verus!
