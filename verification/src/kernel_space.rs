//! The kernels of a document and the symbols they hold.
//!
//! Each symbol has a home: the kernel that assigned it last. Before code
//! that uses a symbol is executed in another kernel, the symbol is mirrored
//! there, unless it was mirrored there since it was last assigned.
//!
//! The kernel space keeps the books; its caller talks to the kernels. Times
//! are milliseconds of a clock that the caller reads.

use vstd::prelude::*;
use crate::graph::{Relation, Resource};
use crate::text::str_eq;

verus! {

/// The id of a kernel within its kernel space.
#[derive(Clone, Copy, Debug, PartialEq, Eq, Structural, Hash)]
pub struct KernelId(pub u64);

/// The status of a kernel
#[derive(Clone, Copy, Debug, PartialEq, Eq, Structural, Hash)]
pub enum KernelStatus {
    Pending,
    Starting,
    Idle,
    Busy,
    Unresponsive,
    Stopping,
    Finished,
    Failed,
}

/// The kinds of kernel.
#[derive(Clone, Copy, Debug, PartialEq, Eq, Structural, Hash)]
pub enum Kernel {
    /// The kernel for code in no language
    Default,
    /// The built-in calculator
    Calc,
    /// A kernel reached over the Jupyter protocol
    Jupyter,
}

impl Kernel {
    /// Get a list of available kernels: the built-in calculator, and the
    /// Jupyter kernels that are installed.
    pub fn available(mut jupyter: Vec<String>) -> (list: Vec<String>)
        ensures
            list@.len() == jupyter@.len() + 1,
            list@[0]@ == "calc"@,
            list@.skip(1) == jupyter@,
    {
        let ghost installed = jupyter@;
        let mut list: Vec<String> = Vec::new();
        list.push(String::from_str("calc"));
        list.append(&mut jupyter);
        assert(list@.skip(1) =~= installed);
        list
    }
}

/// What is shown of a kernel.
#[derive(Clone, Debug, PartialEq, Eq)]
pub struct KernelInfo {
    /// The id of the kernel.
    pub id: KernelId,
    /// The language of the kernel
    pub language: String,
    /// The status of the kernel
    pub status: KernelStatus,
}

/// What went wrong in the kernel space.
#[derive(Clone, Debug, PartialEq, Eq)]
pub enum KernelError {
    /// No kernel has this id
    UnknownKernel(KernelId),
    /// No symbol has this name
    UnknownSymbol(String),
    /// The kernel does not execute the language of this name
    IncompatibleLanguage(String),
}

/// A kernel of the kernel space.
#[derive(Clone, Debug, PartialEq, Eq)]
pub struct KernelEntry {
    pub id: KernelId,
    /// The kind of the kernel
    pub kernel: Kernel,
    /// The names of the languages that the kernel executes, its own name
    /// for its language first
    pub languages: Vec<String>,
    pub status: KernelStatus,
}

impl KernelEntry {
    /// The kernel executes the language of this name.
    pub open spec fn runs(self, language: Seq<char>) -> bool {
        exists|i: int| 0 <= i < self.languages.len() && (#[trigger] self.languages[i])@ == language
    }

    /// Get the name of the kernel's programming language, and/or check that
    /// it is able to execute a given language.
    ///
    /// Without a language, or with one that the kernel executes, the answer
    /// is the kernel's own name for its language; `-` where it has none.
    /// With a language that the kernel does not execute, the language is
    /// incompatible.
    pub fn language(&self, language: Option<&String>) -> (name: Result<String, KernelError>)
        ensures
            match language {
                Some(asked) if !self.runs(asked@) => name matches Err(
                    KernelError::IncompatibleLanguage(refused),
                ) && refused@ == asked@,
                _ => name matches Ok(own) && own@ == if self.languages.len() > 0 {
                    self.languages[0]@
                } else {
                    "-"@
                },
            },
    {
        if let Some(asked) = language {
            if !self.executes(asked) {
                return Err(KernelError::IncompatibleLanguage(asked.clone()));
            }
        }
        if self.languages.len() > 0 {
            Ok(self.languages[0].clone())
        } else {
            Ok(String::from_str("-"))
        }
    }

    /// Whether the kernel executes the language of this name.
    pub fn executes(&self, language: &String) -> (b: bool)
        ensures
            b == self.runs(language@),
    {
        let mut i: usize = 0;
        while i < self.languages.len()
            invariant
                i <= self.languages.len(),
                forall|k: int| 0 <= k < i ==> (#[trigger] self.languages[k])@ != language@,
            decreases self.languages.len() - i,
        {
            if self.languages[i] == *language {
                return true;
            }
            i += 1;
        }
        false
    }
}

/// The kernels of a kernel space, in the order in which they were started.
#[derive(Clone, Debug, PartialEq, Eq)]
pub struct KernelMap {
    pub entries: Vec<KernelEntry>,
}

impl KernelMap {
    /// The place of the kernel with the id `kernel_id`.
    pub fn position(&self, kernel_id: KernelId) -> (found: Option<usize>)
        ensures
            match found {
                Some(i) => i < self.entries.len() && self.entries[i as int].id == kernel_id
                    && forall|k: int| 0 <= k < i ==> (#[trigger] self.entries[k]).id != kernel_id,
                None => forall|k: int|
                    0 <= k < self.entries.len() ==> (#[trigger] self.entries[k]).id != kernel_id,
            },
    {
        let mut i: usize = 0;
        while i < self.entries.len()
            invariant
                i <= self.entries.len(),
                forall|k: int| 0 <= k < i ==> (#[trigger] self.entries[k]).id != kernel_id,
            decreases self.entries.len() - i,
        {
            if self.entries[i].id == kernel_id {
                return Some(i);
            }
            i += 1;
        }
        None
    }

    /// Get a reference to a kernel
    pub fn get(&self, kernel_id: KernelId) -> (kernel: Result<&KernelEntry, KernelError>)
        ensures
            match kernel {
                Ok(entry) => entry.id == kernel_id && self.entries@.contains(*entry),
                Err(error) => error == KernelError::UnknownKernel(kernel_id) && forall|k: int|
                    0 <= k < self.entries.len() ==> (#[trigger] self.entries[k]).id != kernel_id,
            },
    {
        match self.position(kernel_id) {
            Some(i) => {
                assert(self.entries@[i as int] == self.entries[i as int]);
                Ok(&self.entries[i])
            },
            None => Err(KernelError::UnknownKernel(kernel_id)),
        }
    }
}

/// What the kernel space knows of a symbol.
#[derive(Clone, Debug, PartialEq, Eq)]
pub struct SymbolInfo {
    /// The type of the object that the symbol refers to, as a hint
    pub kind: String,
    /// The home kernel of the symbol: the kernel that assigned it last
    pub home: KernelId,
    /// The time that the symbol was last assigned in its home kernel
    pub assigned: i64,
    /// The time that the symbol was last mirrored to each other kernel
    pub mirrored: Vec<(KernelId, i64)>,
}

/// The time of the last of `mirrored` for the kernel `kernel`.
pub open spec fn mirrored_at(mirrored: Seq<(KernelId, i64)>, kernel: KernelId) -> Option<i64>
    decreases mirrored.len(),
{
    if mirrored.len() == 0 {
        None
    } else if mirrored.last().0 == kernel {
        Some(mirrored.last().1)
    } else {
        mirrored_at(mirrored.drop_last(), kernel)
    }
}

/// What is known of a symbol, as plain values.
pub struct SymbolView {
    pub kind: Seq<char>,
    pub home: KernelId,
    pub assigned: i64,
    /// The kernels that the symbol was mirrored to, each with the time
    pub mirrored: Map<KernelId, i64>,
}

/// The times of `mirrored` by kernel, the last for each kernel.
pub open spec fn mirrored_map(mirrored: Seq<(KernelId, i64)>) -> Map<KernelId, i64> {
    Map::new(
        |kernel: KernelId| mirrored_at(mirrored, kernel) is Some,
        |kernel: KernelId| mirrored_at(mirrored, kernel)->0,
    )
}

impl View for SymbolInfo {
    type V = SymbolView;

    open spec fn view(&self) -> SymbolView {
        SymbolView {
            kind: self.kind@,
            home: self.home,
            assigned: self.assigned,
            mirrored: mirrored_map(self.mirrored@),
        }
    }
}

impl SymbolView {
    /// The symbol has to be mirrored to `target` before code there uses
    /// it: `target` is not its home, and it was not mirrored there since it
    /// was last assigned.
    pub open spec fn needs_mirror(self, target: KernelId) -> bool {
        self.home != target && !(self.mirrored.contains_key(target) && self.mirrored[target]
            >= self.assigned)
    }

    /// The symbol once it is assigned in `target` at `now`.
    pub open spec fn assigned_in(self, target: KernelId, now: i64) -> SymbolView {
        SymbolView { home: target, assigned: now, ..self }
    }

    /// The symbol once it is set in `target` at `now`: assigned there, and
    /// mirrored nowhere.
    pub open spec fn set_in(self, target: KernelId, now: i64) -> SymbolView {
        SymbolView { home: target, assigned: now, mirrored: Map::empty(), ..self }
    }

    /// The time that is noted for a mirror made at `now`: never one
    /// before the assignment, since what is copied is what was assigned.
    pub open spec fn mirror_time(self, now: i64) -> i64 {
        if now >= self.assigned {
            now
        } else {
            self.assigned
        }
    }

    /// The symbol once it is mirrored to `target` at `now`.
    pub open spec fn mirrored_to(self, target: KernelId, now: i64) -> SymbolView {
        SymbolView { mirrored: self.mirrored.insert(target, self.mirror_time(now)), ..self }
    }

    /// A symbol of kind `kind`, new in `target` at `now`.
    pub open spec fn fresh(kind: Seq<char>, target: KernelId, now: i64) -> SymbolView {
        SymbolView { kind, home: target, assigned: now, mirrored: Map::empty() }
    }
}

impl SymbolInfo {
    /// A symbol of kind `kind`, assigned in `kernel_id` at `now` and
    /// mirrored nowhere.
    pub fn new(kind: &str, kernel_id: KernelId, now: i64) -> (info: SymbolInfo)
        ensures
            info@ == SymbolView::fresh(kind@, kernel_id, now),
            info.mirrored@ == Seq::<(KernelId, i64)>::empty(),
    {
        proof {
            assert(mirrored_map(Seq::<(KernelId, i64)>::empty()) =~= Map::<KernelId, i64>::empty());
        }
        SymbolInfo {
            kind: String::from_str(kind),
            home: kernel_id,
            assigned: now,
            mirrored: Vec::new(),
        }
    }

    /// The time that the symbol was last mirrored to `kernel`.
    pub fn mirrored_to(&self, kernel: KernelId) -> (at: Option<i64>)
        ensures
            at == mirrored_at(self.mirrored@, kernel),
    {
        let mut at: Option<i64> = None;
        let mut i: usize = 0;
        proof {
            assert(self.mirrored@.take(0) =~= Seq::<(KernelId, i64)>::empty());
        }
        while i < self.mirrored.len()
            invariant
                i <= self.mirrored.len(),
                at == mirrored_at(self.mirrored@.take(i as int), kernel),
            decreases self.mirrored.len() - i,
        {
            proof {
                assert(self.mirrored@.take(i + 1).drop_last() =~= self.mirrored@.take(i as int));
                assert(self.mirrored@.take(i + 1).last() == self.mirrored@[i as int]);
            }
            if self.mirrored[i].0 == kernel {
                at = Some(self.mirrored[i].1);
            }
            i += 1;
        }
        proof {
            assert(self.mirrored@.take(self.mirrored.len() as int) =~= self.mirrored@);
        }
        at
    }

    /// Whether the symbol has to be mirrored to `target`.
    pub fn is_stale_in(&self, target: KernelId) -> (stale: bool)
        ensures
            stale == self@.needs_mirror(target),
    {
        if self.home == target {
            return false;
        }
        match self.mirrored_to(target) {
            Some(at) => at < self.assigned,
            None => true,
        }
    }
}

/// A symbol with its name.
#[derive(Clone, Debug, PartialEq, Eq)]
pub struct SymbolEntry {
    pub name: String,
    pub info: SymbolInfo,
}

/// The place of the last of `symbols` with the name `name`.
pub open spec fn symbol_position(symbols: Seq<SymbolEntry>, name: Seq<char>) -> Option<int>
    decreases symbols.len(),
{
    if symbols.len() == 0 {
        None
    } else if symbols.last().name@ == name {
        Some(symbols.len() - 1)
    } else {
        symbol_position(symbols.drop_last(), name)
    }
}

/// The symbols by name, each with what is known of it.
pub open spec fn table(symbols: Seq<SymbolEntry>) -> Map<Seq<char>, SymbolView> {
    Map::new(
        |name: Seq<char>| symbol_position(symbols, name) is Some,
        |name: Seq<char>| symbols[symbol_position(symbols, name)->0].info@,
    )
}

/// What is known of the symbol with the name `name`, if it is known.
pub open spec fn symbol_info(symbols: Seq<SymbolEntry>, name: Seq<char>) -> Option<SymbolView> {
    if table(symbols).contains_key(name) {
        Some(table(symbols)[name])
    } else {
        None
    }
}

/// The place that `symbol_position` gives is a place of the name, and the
/// last one.
pub proof fn lemma_symbol_position(symbols: Seq<SymbolEntry>, name: Seq<char>)
    ensures
        match symbol_position(symbols, name) {
            Some(i) => 0 <= i < symbols.len() && symbols[i].name@ == name && forall|k: int|
                i < k < symbols.len() ==> (#[trigger] symbols[k]).name@ != name,
            None => forall|k: int| 0 <= k < symbols.len() ==> (#[trigger] symbols[k]).name@ != name,
        },
    decreases symbols.len(),
{
    if symbols.len() > 0 {
        lemma_symbol_position(symbols.drop_last(), name);
        assert(forall|k: int|
            0 <= k < symbols.len() - 1 ==> symbols.drop_last()[k] == #[trigger] symbols[k]);
    }
}

/// A place where the name stands, with no later place of the name, is the
/// place that `symbol_position` gives.
pub proof fn lemma_symbol_position_is(symbols: Seq<SymbolEntry>, name: Seq<char>, i: int)
    requires
        0 <= i < symbols.len(),
        symbols[i].name@ == name,
        forall|k: int| i < k < symbols.len() ==> (#[trigger] symbols[k]).name@ != name,
    ensures
        symbol_position(symbols, name) == Some(i),
    decreases symbols.len(),
{
    if i < symbols.len() - 1 {
        assert(symbols[symbols.len() - 1].name@ != name);
        assert(symbols.drop_last()[i] == symbols[i]);
        assert forall|k: int| i < k < symbols.drop_last().len() implies (
        #[trigger] symbols.drop_last()[k]).name@ != name by {
            assert(symbols.drop_last()[k] == symbols[k]);
        }
        lemma_symbol_position_is(symbols.drop_last(), name, i);
    }
}

/// The use of a symbol that is to be mirrored: its name and its home.
#[derive(Clone, Debug, PartialEq, Eq)]
pub struct Mirror {
    pub name: String,
    pub home: KernelId,
}

/// The name of the symbol that a relation uses, if it is the use of a
/// symbol.
pub open spec fn used_symbol(relation: (Relation, Resource)) -> Option<Seq<char>> {
    match relation {
        (Relation::Use, Resource::Symbol(symbol)) => Some(symbol.name@),
        _ => None,
    }
}

/// The name and the kind of the symbol that a relation assigns, if it is
/// the assignment of a symbol.
pub open spec fn assigned_symbol(relation: (Relation, Resource)) -> Option<(Seq<char>, Seq<char>)> {
    match relation {
        (Relation::Assign, Resource::Symbol(symbol)) => Some((symbol.name@, symbol.kind@)),
        _ => None,
    }
}

/// The relation is the use of a known symbol that has to be mirrored to
/// `target`.
pub open spec fn relation_needs_mirror(
    symbols: Seq<SymbolEntry>,
    target: KernelId,
    relation: (Relation, Resource),
) -> bool {
    &&& used_symbol(relation) matches Some(name)
    &&& symbol_info(symbols, name) matches Some(info)
    &&& info.needs_mirror(target)
}

/// Every known symbol that `relations` use is at home in `target`, or was
/// mirrored there since it was last assigned: code with these relations
/// reads no stale value in `target`.
pub open spec fn ready(
    symbols: Seq<SymbolEntry>,
    target: KernelId,
    relations: Seq<(Relation, Resource)>,
) -> bool {
    forall|i: int|
        0 <= i < relations.len() ==> !relation_needs_mirror(symbols, target, #[trigger] relations[i])
}

/// The kernels of a document, and the symbols in them.
#[derive(Clone, Debug, PartialEq, Eq)]
pub struct KernelSpace {
    /// The kernels in the document kernel space
    pub kernels: KernelMap,
    /// The symbols in the document kernel space
    pub symbols: Vec<SymbolEntry>,
    /// The id of the next kernel to start
    pub next_id: u64,
}

impl KernelSpace {
    /// A kernel space without kernels or symbols.
    pub fn new() -> (space: KernelSpace)
        ensures
            space.kernels.entries@ == Seq::<KernelEntry>::empty(),
            space.symbols@ == Seq::<SymbolEntry>::empty(),
            space.next_id == 0,
    {
        KernelSpace { kernels: KernelMap { entries: Vec::new() }, symbols: Vec::new(), next_id: 0 }
    }

    /// The place of the symbol with the name `name`.
    pub fn find_symbol(&self, name: &String) -> (found: Option<usize>)
        ensures
            match found {
                Some(i) => symbol_position(self.symbols@, name@) == Some(i as int) && i
                    < self.symbols.len(),
                None => symbol_position(self.symbols@, name@) is None,
            },
    {
        let mut found: Option<usize> = None;
        let mut i: usize = 0;
        proof {
            assert(self.symbols@.take(0) =~= Seq::<SymbolEntry>::empty());
        }
        while i < self.symbols.len()
            invariant
                i <= self.symbols.len(),
                match found {
                    Some(k) => symbol_position(self.symbols@.take(i as int), name@) == Some(
                        k as int,
                    ) && k < i,
                    None => symbol_position(self.symbols@.take(i as int), name@) is None,
                },
            decreases self.symbols.len() - i,
        {
            proof {
                assert(self.symbols@.take(i + 1).drop_last() =~= self.symbols@.take(i as int));
                assert(self.symbols@.take(i + 1).last() == self.symbols@[i as int]);
            }
            if self.symbols[i].name == *name {
                found = Some(i);
            }
            i += 1;
        }
        proof {
            assert(self.symbols@.take(self.symbols.len() as int) =~= self.symbols@);
        }
        found
    }

    /// The kernel to execute code of `language` in: the first that
    /// executes the language, if there is one. Where there is none, a
    /// kernel for the language is to be started.
    pub fn ensure(&self, language: &String) -> (kernel: Option<KernelId>)
        ensures
            match kernel {
                Some(id) => exists|i: int|
                    0 <= i < self.kernels.entries.len() && (#[trigger] self.kernels.entries[i]).id
                        == id && self.kernels.entries[i].runs(language@) && forall|k: int|
                        0 <= k < i ==> !(#[trigger] self.kernels.entries[k]).runs(language@),
                None => forall|k: int|
                    0 <= k < self.kernels.entries.len() ==> !(#[trigger] self.kernels.entries[k]).runs(
                        language@,
                    ),
            },
    {
        let mut i: usize = 0;
        while i < self.kernels.entries.len()
            invariant
                i <= self.kernels.entries.len(),
                forall|k: int| 0 <= k < i ==> !(#[trigger] self.kernels.entries[k]).runs(language@),
            decreases self.kernels.entries.len() - i,
        {
            if self.kernels.entries[i].executes(language) {
                assert(self.kernels.entries[i as int].id == self.kernels.entries[i as int].id);
                return Some(self.kernels.entries[i].id);
            }
            i += 1;
        }
        None
    }

    /// The kind of kernel to start for a language: the default kernel for
    /// no language, the calculator for its own, a Jupyter kernel for any
    /// other.
    pub fn kind_for(language: &str) -> (kernel: Kernel)
        ensures
            kernel == if language@ == "none"@ || language@ == ""@ {
                Kernel::Default
            } else if language@ == "calc"@ {
                Kernel::Calc
            } else {
                Kernel::Jupyter
            },
    {
        if str_eq(language, "none") || str_eq(language, "") {
            Kernel::Default
        } else if str_eq(language, "calc") {
            Kernel::Calc
        } else {
            Kernel::Jupyter
        }
    }

    /// Take up a kernel that was started: it gets the next id, and stands
    /// after the kernels that are there. No kernel is taken up once the ids
    /// have run out.
    pub fn start(&mut self, kernel: Kernel, languages: Vec<String>) -> (id: Option<KernelId>)
        ensures
            match id {
                Some(id) => {
                    &&& old(self).next_id < u64::MAX
                    &&& id == KernelId(old(self).next_id)
                    &&& final(self).next_id == old(self).next_id + 1
                    &&& final(self).symbols@ == old(self).symbols@
                    &&& final(self).kernels.entries@ == old(self).kernels.entries@.push(
                        KernelEntry { id, kernel, languages, status: KernelStatus::Idle },
                    )
                },
                None => old(self).next_id == u64::MAX && *final(self) == *old(self),
            },
    {
        if self.next_id == u64::MAX {
            return None;
        }
        let id = KernelId(self.next_id);
        self.next_id = self.next_id + 1;
        self.kernels.entries.push(KernelEntry { id, kernel, languages, status: KernelStatus::Idle });
        Some(id)
    }

    /// Stop one of the kernels and remove it from the kernel space
    pub fn stop(&mut self, id: KernelId) -> (stopped: Result<(), KernelError>)
        ensures
            final(self).symbols@ == old(self).symbols@,
            final(self).next_id == old(self).next_id,
            match stopped {
                Ok(_) => exists|i: int|
                    0 <= i < old(self).kernels.entries.len() && (
                    #[trigger] old(self).kernels.entries[i]).id == id && final(self).kernels.entries@
                        == old(self).kernels.entries@.remove(i),
                Err(error) => error == KernelError::UnknownKernel(id) && final(self).kernels.entries@
                    == old(self).kernels.entries@ && forall|k: int|
                    0 <= k < old(self).kernels.entries.len() ==> (
                    #[trigger] old(self).kernels.entries[k]).id != id,
            },
    {
        match self.kernels.position(id) {
            Some(i) => {
                self.kernels.entries.remove(i);
                assert(old(self).kernels.entries[i as int].id == id);
                Ok(())
            },
            None => Err(KernelError::UnknownKernel(id)),
        }
    }

    /// The home kernel of a symbol: the kernel to get its value from.
    /// A symbol that was never assigned is unknown.
    pub fn get(&self, name: &String) -> (home: Result<KernelId, KernelError>)
        ensures
            match symbol_info(self.symbols@, name@) {
                Some(info) => home == Ok::<KernelId, KernelError>(info.home),
                None => home matches Err(KernelError::UnknownSymbol(unknown)) && unknown@ == name@,
            },
    {
        match self.find_symbol(name) {
            Some(i) => Ok(self.symbols[i].home_kernel()),
            None => Err(KernelError::UnknownSymbol(name.clone())),
        }
    }
}

impl SymbolEntry {
    /// The home kernel of the symbol.
    pub fn home_kernel(&self) -> (home: KernelId)
        ensures
            home == self.info.home,
    {
        self.info.home
    }
}

/// Symbols with the same names in the same places have the same places for
/// every name.
pub proof fn lemma_same_names(a: Seq<SymbolEntry>, b: Seq<SymbolEntry>, name: Seq<char>)
    requires
        a.len() == b.len(),
        forall|k: int| 0 <= k < a.len() ==> (#[trigger] a[k]).name@ == b[k].name@,
    ensures
        symbol_position(a, name) == symbol_position(b, name),
    decreases a.len(),
{
    if a.len() > 0 {
        assert(a[a.len() - 1].name@ == b[b.len() - 1].name@);
        assert forall|k: int| 0 <= k < a.drop_last().len() implies (
        #[trigger] a.drop_last()[k]).name@ == b.drop_last()[k].name@ by {
            assert(a[k].name@ == b[k].name@);
        }
        lemma_same_names(a.drop_last(), b.drop_last(), name);
    }
}

/// Putting what is known of a symbol in the place of what was known of
/// it changes the table for that symbol alone.
pub proof fn lemma_table_update(
    before: Seq<SymbolEntry>,
    after: Seq<SymbolEntry>,
    i: int,
    name: Seq<char>,
)
    requires
        symbol_position(before, name) == Some(i),
        after.len() == before.len(),
        forall|k: int| 0 <= k < before.len() ==> (#[trigger] after[k]).name@ == before[k].name@,
        forall|k: int| 0 <= k < before.len() && k != i ==> (#[trigger] after[k]).info@ == before[k].info@,
    ensures
        table(after) == table(before).insert(name, after[i].info@),
{
    lemma_symbol_position(before, name);
    assert forall|other: Seq<char>| #[trigger]
        symbol_position(after, other) == symbol_position(before, other) by {
        lemma_same_names(after, before, other);
    }
    assert forall|other: Seq<char>| other != name && symbol_position(before, other) is Some implies (
    #[trigger] symbol_position(before, other))->0 != i by {
        lemma_symbol_position(before, other);
    }
    assert forall|other: Seq<char>| symbol_position(before, other) is Some implies 0 <= (
    #[trigger] symbol_position(before, other))->0 < before.len() by {
        lemma_symbol_position(before, other);
    }
    assert(table(after) =~= table(before).insert(name, after[i].info@));
}

/// Adding a symbol under a name that is not in the table adds it to the
/// table.
pub proof fn lemma_table_push(before: Seq<SymbolEntry>, entry: SymbolEntry)
    requires
        symbol_position(before, entry.name@) is None,
    ensures
        table(before.push(entry)) == table(before).insert(entry.name@, entry.info@),
{
    let after = before.push(entry);
    assert(after.drop_last() =~= before);
    assert(after.last() == entry);
    assert forall|other: Seq<char>| other != entry.name@ implies #[trigger] symbol_position(
        after,
        other,
    ) == symbol_position(before, other) by {}
    assert forall|other: Seq<char>| symbol_position(before, other) is Some implies 0 <= (
    #[trigger] symbol_position(before, other))->0 < before.len() by {
        lemma_symbol_position(before, other);
    }
    assert(table(after) =~= table(before).insert(entry.name@, entry.info@));
}

/// Setting the time of the last entry for a kernel changes the times for
/// that kernel alone.
pub proof fn lemma_mirrored_update(
    mirrored: Seq<(KernelId, i64)>,
    j: int,
    target: KernelId,
    now: i64,
    kernel: KernelId,
)
    requires
        0 <= j < mirrored.len(),
        mirrored[j].0 == target,
        forall|k: int| j < k < mirrored.len() ==> (#[trigger] mirrored[k]).0 != target,
    ensures
        mirrored_at(mirrored.update(j, (target, now)), kernel) == if kernel == target {
            Some(now)
        } else {
            mirrored_at(mirrored, kernel)
        },
    decreases mirrored.len(),
{
    let after = mirrored.update(j, (target, now));
    if j == mirrored.len() - 1 {
        assert(after.drop_last() =~= mirrored.drop_last());
    } else {
        assert(mirrored[mirrored.len() - 1].0 != target);
        assert(after.drop_last() =~= mirrored.drop_last().update(j, (target, now)));
        assert forall|k: int| j < k < mirrored.drop_last().len() implies (
        #[trigger] mirrored.drop_last()[k]).0 != target by {
            assert(mirrored.drop_last()[k] == mirrored[k]);
        }
        lemma_mirrored_update(mirrored.drop_last(), j, target, now, kernel);
    }
}

/// Note that a symbol was mirrored to `target` at `now`.
pub fn note_mirrored(mirrored: &mut Vec<(KernelId, i64)>, target: KernelId, now: i64)
    ensures
        mirrored_map(final(mirrored)@) == mirrored_map(old(mirrored)@).insert(target, now),
{
    let mut i: usize = mirrored.len();
    while i > 0
        invariant
            i <= mirrored.len(),
            mirrored@ == old(mirrored)@,
            forall|k: int| i <= k < mirrored.len() ==> (#[trigger] mirrored[k]).0 != target,
        decreases i,
    {
        i -= 1;
        if mirrored[i].0 == target {
            mirrored[i] = (target, now);
            proof {
                assert(mirrored@ =~= old(mirrored)@.update(i as int, (target, now)));
                assert forall|kernel: KernelId| #[trigger]
                    mirrored_at(mirrored@, kernel) == if kernel == target {
                        Some(now)
                    } else {
                        mirrored_at(old(mirrored)@, kernel)
                    } by {
                    lemma_mirrored_update(old(mirrored)@, i as int, target, now, kernel);
                }
                assert(mirrored_map(mirrored@) =~= mirrored_map(old(mirrored)@).insert(
                    target,
                    now,
                ));
            }
            return ;
        }
    }
    mirrored.push((target, now));
    proof {
        assert(mirrored@.drop_last() =~= old(mirrored)@);
        assert forall|kernel: KernelId| #[trigger]
            mirrored_at(mirrored@, kernel) == if kernel == target {
                Some(now)
            } else {
                mirrored_at(old(mirrored)@, kernel)
            } by {}
        assert(mirrored_map(mirrored@) =~= mirrored_map(old(mirrored)@).insert(target, now));
    }
}

impl KernelSpace {
    /// Note that the symbol `name` was set in `kernel_id` at `now`: that
    /// kernel is its home, and it is mirrored nowhere. A symbol that was not
    /// known is new, of no kind.
    pub fn record_set(&mut self, name: &String, kernel_id: KernelId, now: i64)
        ensures
            final(self).kernels == old(self).kernels,
            final(self).next_id == old(self).next_id,
            table(final(self).symbols@) == table(old(self).symbols@).insert(
                name@,
                match symbol_info(old(self).symbols@, name@) {
                    Some(known) => known.set_in(kernel_id, now),
                    None => SymbolView::fresh(""@, kernel_id, now),
                },
            ),
    {
        match self.find_symbol(name) {
            Some(i) => {
                self.symbols[i].info.home = kernel_id;
                self.symbols[i].info.assigned = now;
                self.symbols[i].info.mirrored = Vec::new();
                proof {
                    assert(mirrored_map(Seq::<(KernelId, i64)>::empty()) =~= Map::<
                        KernelId,
                        i64,
                    >::empty());
                    lemma_table_update(old(self).symbols@, self.symbols@, i as int, name@);
                }
            },
            None => {
                let entry = SymbolEntry {
                    name: name.clone(),
                    info: SymbolInfo::new("", kernel_id, now),
                };
                proof {
                    lemma_table_push(self.symbols@, entry);
                }
                self.symbols.push(entry);
            },
        }
    }

    /// Note that the symbol `name` was assigned in `target` at `now`: that
    /// kernel is its home. A symbol that was not known is new, of kind
    /// `kind`.
    pub fn record_assignment(&mut self, name: &String, kind: &String, target: KernelId, now: i64)
        ensures
            final(self).kernels == old(self).kernels,
            final(self).next_id == old(self).next_id,
            table(final(self).symbols@) == assign(
                table(old(self).symbols@),
                name@,
                kind@,
                target,
                now,
            ),
    {
        match self.find_symbol(name) {
            Some(i) => {
                self.symbols[i].info.home = target;
                self.symbols[i].info.assigned = now;
                proof {
                    lemma_table_update(old(self).symbols@, self.symbols@, i as int, name@);
                }
            },
            None => {
                let entry = SymbolEntry {
                    name: name.clone(),
                    info: SymbolInfo::new(kind.as_str(), target, now),
                };
                proof {
                    lemma_table_push(self.symbols@, entry);
                }
                self.symbols.push(entry);
            },
        }
    }

    /// Note that the symbol `name` was mirrored to `target` at `now`, or
    /// at the time of its assignment where the clock stands before that:
    /// the symbol then need not be mirrored there again. Of a symbol that is
    /// not known nothing is noted.
    pub fn record_mirrored(&mut self, name: &String, target: KernelId, now: i64)
        ensures
            symbol_info(final(self).symbols@, name@) matches Some(known) ==> !known.needs_mirror(
                target,
            ),
            final(self).kernels == old(self).kernels,
            final(self).next_id == old(self).next_id,
            table(final(self).symbols@) == match symbol_info(old(self).symbols@, name@) {
                Some(known) => table(old(self).symbols@).insert(
                    name@,
                    known.mirrored_to(target, now),
                ),
                None => table(old(self).symbols@),
            },
    {
        match self.find_symbol(name) {
            Some(i) => {
                let assigned = self.symbols[i].info.assigned;
                let at = if now >= assigned {
                    now
                } else {
                    assigned
                };
                note_mirrored(&mut self.symbols[i].info.mirrored, target, at);
                proof {
                    lemma_table_update(old(self).symbols@, self.symbols@, i as int, name@);
                }
            },
            None => {},
        }
    }

    /// Note the symbols that code with `relations`, executed in `target`
    /// at `now`, has assigned.
    pub fn record_assigned(
        &mut self,
        relations: &Vec<(Relation, Resource)>,
        target: KernelId,
        now: i64,
    )
        ensures
            final(self).kernels == old(self).kernels,
            final(self).next_id == old(self).next_id,
            table(final(self).symbols@) == assign_all(
                table(old(self).symbols@),
                relations@,
                target,
                now,
            ),
    {
        let mut i: usize = 0;
        proof {
            assert(relations@.take(0) =~= Seq::<(Relation, Resource)>::empty());
        }
        while i < relations.len()
            invariant
                i <= relations.len(),
                self.kernels == old(self).kernels,
                self.next_id == old(self).next_id,
                table(self.symbols@) == assign_all(
                    table(old(self).symbols@),
                    relations@.take(i as int),
                    target,
                    now,
                ),
            decreases relations.len() - i,
        {
            proof {
                assert(relations@.take(i + 1).drop_last() =~= relations@.take(i as int));
                assert(relations@.take(i + 1).last() == relations@[i as int]);
            }
            match &relations[i] {
                (Relation::Assign, Resource::Symbol(symbol)) => {
                    self.record_assignment(&symbol.name, &symbol.kind, target, now);
                },
                _ => {},
            }
            i += 1;
        }
        proof {
            assert(relations@.take(relations.len() as int) =~= relations@);
        }
    }

    /// The next symbol to mirror to `target` before code with `relations`
    /// is executed there: the first relation, from the place `from` on,
    /// that is the use of a known symbol that has to be mirrored. Where
    /// there is none from the first place on, the code reads no stale
    /// value.
    pub fn next_mirror(
        &self,
        target: KernelId,
        relations: &Vec<(Relation, Resource)>,
        from: usize,
    ) -> (next: Option<(usize, Mirror)>)
        ensures
            match next {
                Some((i, mirror)) => {
                    &&& from <= i < relations.len()
                    &&& relation_needs_mirror(self.symbols@, target, relations[i as int])
                    &&& used_symbol(relations[i as int]) == Some(mirror.name@)
                    &&& symbol_info(self.symbols@, mirror.name@) matches Some(known)
                    &&& mirror.home == known.home
                    &&& forall|k: int|
                        from <= k < i ==> !relation_needs_mirror(
                            self.symbols@,
                            target,
                            #[trigger] relations[k],
                        )
                },
                None => forall|k: int|
                    from <= k < relations.len() ==> !relation_needs_mirror(
                        self.symbols@,
                        target,
                        #[trigger] relations[k],
                    ),
            },
            from == 0 && next is None ==> ready(self.symbols@, target, relations@),
    {
        let mut i: usize = from;
        while i < relations.len()
            invariant
                from <= i,
                forall|k: int|
                    from <= k < i && k < relations.len() ==> !relation_needs_mirror(
                        self.symbols@,
                        target,
                        #[trigger] relations[k],
                    ),
            decreases relations.len() - i,
        {
            match &relations[i] {
                (Relation::Use, Resource::Symbol(symbol)) => {
                    match self.find_symbol(&symbol.name) {
                        Some(k) => {
                            if self.symbols[k].info.is_stale_in(target) {
                                let mirror = Mirror {
                                    name: symbol.name.clone(),
                                    home: self.symbols[k].info.home,
                                };
                                return Some((i, mirror));
                            }
                        },
                        None => {},
                    }
                },
                _ => {},
            }
            i += 1;
        }
        None
    }

    /// The names of the symbols whose home is `kernel`: those that have to
    /// be assigned again when the kernel is restarted.
    pub fn homed_in(&self, kernel: KernelId) -> (names: Vec<String>)
        ensures
            names@.map_values(|name: String| name@) == names_homed_in(self.symbols@, kernel),
    {
        let mut names: Vec<String> = Vec::new();
        let mut i: usize = 0;
        proof {
            assert(self.symbols@.take(0) =~= Seq::<SymbolEntry>::empty());
            assert(names@.map_values(|name: String| name@) =~= Seq::<Seq<char>>::empty());
        }
        while i < self.symbols.len()
            invariant
                i <= self.symbols.len(),
                names@.map_values(|name: String| name@) == names_homed_in(
                    self.symbols@.take(i as int),
                    kernel,
                ),
            decreases self.symbols.len() - i,
        {
            proof {
                assert(self.symbols@.take(i + 1).drop_last() =~= self.symbols@.take(i as int));
                assert(self.symbols@.take(i + 1).last() == self.symbols@[i as int]);
            }
            if self.symbols[i].info.home == kernel {
                let ghost before = names@;
                names.push(self.symbols[i].name.clone());
                proof {
                    assert(names@.map_values(|name: String| name@) =~= before.map_values(
                        |name: String| name@,
                    ).push(self.symbols@[i as int].name@));
                }
            }
            i += 1;
        }
        proof {
            assert(self.symbols@.take(self.symbols.len() as int) =~= self.symbols@);
        }
        names
    }
}

/// The names of those of `symbols` whose home is `kernel`, in order.
pub open spec fn names_homed_in(symbols: Seq<SymbolEntry>, kernel: KernelId) -> Seq<Seq<char>>
    decreases symbols.len(),
{
    if symbols.len() == 0 {
        Seq::empty()
    } else {
        let before = names_homed_in(symbols.drop_last(), kernel);
        if symbols.last().info.home == kernel {
            before.push(symbols.last().name@)
        } else {
            before
        }
    }
}

/// The table once the symbol `name` is assigned in `target` at `now`.
pub open spec fn assign(
    symbols: Map<Seq<char>, SymbolView>,
    name: Seq<char>,
    kind: Seq<char>,
    target: KernelId,
    now: i64,
) -> Map<Seq<char>, SymbolView> {
    symbols.insert(
        name,
        if symbols.contains_key(name) {
            symbols[name].assigned_in(target, now)
        } else {
            SymbolView::fresh(kind, target, now)
        },
    )
}

/// The table once every symbol that `relations` assign is assigned in
/// `target` at `now`.
pub open spec fn assign_all(
    symbols: Map<Seq<char>, SymbolView>,
    relations: Seq<(Relation, Resource)>,
    target: KernelId,
    now: i64,
) -> Map<Seq<char>, SymbolView>
    decreases relations.len(),
{
    if relations.len() == 0 {
        symbols
    } else {
        let before = assign_all(symbols, relations.drop_last(), target, now);
        match assigned_symbol(relations.last()) {
            Some((name, kind)) => assign(before, name, kind, target, now),
            None => before,
        }
    }
}

/// A symbol that was mirrored to a kernel need not be mirrored there
/// again: code there reads what was assigned. This holds whatever the clock
/// gave as the time of the mirror.
pub proof fn lemma_mirrored_is_current(symbol: SymbolView, target: KernelId, now: i64)
    ensures
        !symbol.mirrored_to(target, now).needs_mirror(target),
        forall|other: KernelId|
            other != target ==> symbol.mirrored_to(target, now).needs_mirror(other)
                == symbol.needs_mirror(other),
{
}

/// Once a known symbol is noted as mirrored to a kernel, code in that
/// kernel that uses it reads no stale value, whatever the clock gave; the
/// symbol keeps its home and the time of its assignment, and nothing
/// changes for any other symbol.
pub proof fn lemma_no_stale_read(
    before: Seq<SymbolEntry>,
    after: Seq<SymbolEntry>,
    name: Seq<char>,
    target: KernelId,
    now: i64,
    relation: (Relation, Resource),
)
    requires
        was_mirrored(before, after, name, target, now),
        symbol_info(before, name) is Some,
        used_symbol(relation) matches Some(used) && (used == name || !relation_needs_mirror(
            before,
            target,
            relation,
        )),
    ensures
        !relation_needs_mirror(after, target, relation),
        symbol_info(after, name) matches Some(known) && known.home == symbol_info(
            before,
            name,
        )->0.home && known.assigned == symbol_info(before, name)->0.assigned
            && known.mirrored.contains_key(target) && known.mirrored[target] >= known.assigned,
        forall|other: Seq<char>| other != name ==> symbol_info(after, other) == symbol_info(
            before,
            other,
        ),
{
}

/// Code leaves a symbol that it does not assign as it is: the symbol
/// keeps its home, the time of its assignment and its mirrors, so that a
/// symbol that was mirrored for the code is still current after it.
pub proof fn lemma_unassigned_stays(
    symbols: Map<Seq<char>, SymbolView>,
    relations: Seq<(Relation, Resource)>,
    target: KernelId,
    now: i64,
    name: Seq<char>,
)
    requires
        forall|i: int|
            0 <= i < relations.len() ==> !(assigned_symbol(#[trigger] relations[i]) matches Some(
                assigned,
            ) && assigned.0 == name),
    ensures
        assign_all(symbols, relations, target, now).contains_key(name) == symbols.contains_key(
            name,
        ),
        symbols.contains_key(name) ==> assign_all(symbols, relations, target, now)[name]
            == symbols[name],
    decreases relations.len(),
{
    if relations.len() > 0 {
        let front = relations.drop_last();
        assert forall|i: int| 0 <= i < front.len() implies !(assigned_symbol(
            #[trigger] front[i],
        ) matches Some(assigned) && assigned.0 == name) by {
            assert(front[i] == relations[i]);
        }
        lemma_unassigned_stays(symbols, front, target, now, name);
        assert(relations.last() == relations[relations.len() - 1]);
    }
}

/// A symbol need not be mirrored to the kernel that assigned it, and has
/// to be mirrored to any other kernel that has no mirror as new as the
/// assignment.
pub proof fn lemma_assigned_needs_mirror(symbol: SymbolView, home: KernelId, now: i64, other: KernelId)
    ensures
        !symbol.assigned_in(home, now).needs_mirror(home),
        other != home && (symbol.mirrored.contains_key(other) ==> symbol.mirrored[other] < now)
            ==> symbol.assigned_in(home, now).needs_mirror(other),
        other != home ==> symbol.set_in(home, now).needs_mirror(other),
{
}

impl KernelSpace {
    /// Set a symbol in the kernel space: note, at the time of the clock,
    /// that the kernel `kernel_id` has taken a value for `name`.
    pub fn set(&mut self, name: &String, kernel_id: KernelId)
        ensures
            final(self).kernels == old(self).kernels,
            final(self).next_id == old(self).next_id,
            exists|now: i64| #[trigger]
                was_set(old(self).symbols@, final(self).symbols@, name@, kernel_id, now),
    {
        let now = utc_now();
        self.record_set(name, kernel_id, now);
        assert(was_set(old(self).symbols@, self.symbols@, name@, kernel_id, now));
    }

    /// Note, at the time of the clock, that the symbol `name` was copied
    /// from its home to the kernel `target`. Whatever the clock gave, the
    /// symbol need not be mirrored there again.
    pub fn mirrored(&mut self, name: &String, target: KernelId)
        ensures
            final(self).kernels == old(self).kernels,
            final(self).next_id == old(self).next_id,
            exists|now: i64| #[trigger]
                was_mirrored(old(self).symbols@, final(self).symbols@, name@, target, now),
            symbol_info(final(self).symbols@, name@) matches Some(known) ==> !known.needs_mirror(
                target,
            ),
    {
        let now = utc_now();
        self.record_mirrored(name, target, now);
        assert(was_mirrored(old(self).symbols@, self.symbols@, name@, target, now));
    }

    /// Execute some code in the kernel space: note, at the time of the
    /// clock, the symbols that code with `relations` has assigned in the
    /// kernel `target`.
    pub fn exec(&mut self, relations: &Vec<(Relation, Resource)>, target: KernelId)
        ensures
            final(self).kernels == old(self).kernels,
            final(self).next_id == old(self).next_id,
            exists|now: i64| #[trigger]
                was_assigned(old(self).symbols@, final(self).symbols@, relations@, target, now),
    {
        let now = utc_now();
        self.record_assigned(relations, target, now);
        assert(was_assigned(old(self).symbols@, self.symbols@, relations@, target, now));
    }

    /// Get a list of kernels in the kernel space
    pub fn kernels(&self) -> (infos: Vec<KernelInfo>)
        ensures
            infos.len() == self.kernels.entries.len(),
            forall|i: int|
                0 <= i < infos.len() ==> {
                    let entry = self.kernels.entries[i];
                    &&& (#[trigger] infos[i]).id == entry.id
                    &&& infos[i].status == entry.status
                    &&& infos[i].language@ == if entry.languages.len() > 0 {
                        entry.languages[0]@
                    } else {
                        "-"@
                    }
                },
    {
        let mut infos: Vec<KernelInfo> = Vec::new();
        let mut i: usize = 0;
        while i < self.kernels.entries.len()
            invariant
                i <= self.kernels.entries.len(),
                infos.len() == i,
                forall|k: int|
                    0 <= k < i ==> {
                        let entry = self.kernels.entries[k];
                        &&& (#[trigger] infos[k]).id == entry.id
                        &&& infos[k].status == entry.status
                        &&& infos[k].language@ == if entry.languages.len() > 0 {
                            entry.languages[0]@
                        } else {
                            "-"@
                        }
                    },
            decreases self.kernels.entries.len() - i,
        {
            let entry = &self.kernels.entries[i];
            let language = if entry.languages.len() > 0 {
                entry.languages[0].clone()
            } else {
                String::from_str("-")
            };
            infos.push(KernelInfo { id: entry.id, language, status: entry.status });
            i += 1;
        }
        infos
    }
}

/// The symbols `after` are the symbols `before` with the symbol `name` set
/// in `kernel` at `now`.
pub open spec fn was_set(
    before: Seq<SymbolEntry>,
    after: Seq<SymbolEntry>,
    name: Seq<char>,
    kernel: KernelId,
    now: i64,
) -> bool {
    table(after) == table(before).insert(
        name,
        match symbol_info(before, name) {
            Some(known) => known.set_in(kernel, now),
            None => SymbolView::fresh(""@, kernel, now),
        },
    )
}

/// The symbols `after` are the symbols `before` with the symbol `name`, if
/// it is known, mirrored to `target` at `now`.
pub open spec fn was_mirrored(
    before: Seq<SymbolEntry>,
    after: Seq<SymbolEntry>,
    name: Seq<char>,
    target: KernelId,
    now: i64,
) -> bool {
    table(after) == match symbol_info(before, name) {
        Some(known) => table(before).insert(name, known.mirrored_to(target, now)),
        None => table(before),
    }
}

/// The symbols `after` are the symbols `before` with every symbol that
/// `relations` assign assigned in `target` at `now`.
pub open spec fn was_assigned(
    before: Seq<SymbolEntry>,
    after: Seq<SymbolEntry>,
    relations: Seq<(Relation, Resource)>,
    target: KernelId,
    now: i64,
) -> bool {
    table(after) == assign_all(table(before), relations, target, now)
}

/// The time of the clock in milliseconds since 1970, by `chrono::Utc::now`
/// and `DateTime::timestamp_millis`. Nothing is claimed of the time that
/// comes back. The clock is taken to stand after 1970: chrono gives up
/// where it stands before.
#[verifier::external_body]
fn utc_now() -> i64 {
    chrono::Utc::now().timestamp_millis()
}

/// A text with each backslash that is followed by `n` turned, together
/// with that `n`, into a line feed.
pub open spec fn unescaped(text: Seq<char>) -> Seq<char>
    decreases text.len(),
{
    if text.len() == 0 {
        Seq::empty()
    } else if text.len() >= 2 && text[0] == '\\' && text[1] == 'n' {
        seq!['\n'] + unescaped(text.skip(2))
    } else {
        seq![text[0]] + unescaped(text.skip(1))
    }
}

/// A text with each backslash that is followed by `n` turned into a line
/// feed.
pub fn unescape(text: &str) -> (out: String)
    ensures
        out@ == unescaped(text@),
{
    let chars = crate::text::chars_of(text);
    let mut out = String::new();
    let mut i: usize = 0;
    proof {
        assert(text@.skip(0) =~= text@);
    }
    while i < chars.len()
        invariant
            chars@ == text@,
            i <= chars.len(),
            unescaped(text@) == out@ + unescaped(text@.skip(i as int)),
        decreases chars.len() - i,
    {
        let ghost rest = text@.skip(i as int);
        let ghost so_far = out@;
        proof {
            assert(rest[0] == text@[i as int]);
        }
        if i + 1 < chars.len() && chars[i] == '\\' && chars[i + 1] == 'n' {
            proof {
                assert(rest[1] == text@[i + 1]);
                assert(rest.skip(2) =~= text@.skip(i + 2));
            }
            out.append("\n");
            proof {
                reveal_strlit("\n");
                assert("\n"@ =~= seq!['\n']);
                assert(out@ + unescaped(text@.skip(i + 2)) =~= so_far + (seq!['\n'] + unescaped(
                    rest.skip(2),
                )));
            }
            i += 2;
        } else {
            proof {
                if rest.len() >= 2 {
                    assert(rest[1] == text@[i + 1]);
                }
                assert(rest.skip(1) =~= text@.skip(i + 1));
                assert(text@.subrange(i as int, i + 1) =~= seq![text@[i as int]]);
            }
            out.append(text.substring_char(i, i + 1));
            proof {
                assert(out@ + unescaped(text@.skip(i + 1)) =~= so_far + (seq![rest[0]] + unescaped(
                    rest.skip(1),
                )));
            }
            i += 1;
        }
    }
    proof {
        assert(text@.skip(chars.len() as int).len() == 0);
        assert(out@ + Seq::<char>::empty() =~= out@);
    }
    out
}

/// What a line that is read at the prompt asks for.
#[derive(Clone, Debug, PartialEq, Eq)]
pub enum Repl {
    /// Nothing: the line is empty
    Nothing,
    /// The symbols of the kernel space
    Symbols,
    /// The kernels of the kernel space
    Kernels,
    /// The execution of code
    Execute(String),
}

impl KernelSpace {
    /// A read-evaluate-print function: what a line asks for.
    ///
    /// An empty line asks for nothing. `%symbols` and `%kernels` ask for
    /// the symbols and the kernels. Any other line is code, in which `\\n`
    /// stands for a line feed.
    pub fn repl(code: &str) -> (asked: Repl)
        ensures
            code@.len() == 0 ==> asked == Repl::Nothing,
            code@.len() > 0 && unescaped(code@) == "%symbols"@ ==> asked == Repl::Symbols,
            code@.len() > 0 && unescaped(code@) != "%symbols"@ && unescaped(code@) == "%kernels"@
                ==> asked == Repl::Kernels,
            code@.len() > 0 && unescaped(code@) != "%symbols"@ && unescaped(code@) != "%kernels"@
                ==> (asked matches Repl::Execute(text) && text@ == unescaped(code@)),
    {
        if code.is_empty() {
            return Repl::Nothing;
        }
        let text = unescape(code);
        if str_eq(text.as_str(), "%symbols") {
            Repl::Symbols
        } else if str_eq(text.as_str(), "%kernels") {
            Repl::Kernels
        } else {
            Repl::Execute(text)
        }
    }
}

/// How many of the outputs of an execution are shown.
#[derive(Clone, Copy, Debug, PartialEq, Eq, Structural)]
pub enum Shown {
    /// Nothing: there is no output
    Nothing,
    /// The one output
    One,
    /// All outputs, as a list
    All,
}

/// What is shown of `count` outputs.
pub fn shown(count: usize) -> (shown: Shown)
    ensures
        shown == if count == 0 {
            Shown::Nothing
        } else if count == 1 {
            Shown::One
        } else {
            Shown::All
        },
{
    if count == 0 {
        Shown::Nothing
    } else if count == 1 {
        Shown::One
    } else {
        Shown::All
    }
}

} // verus!
