//! The symbol table: scopes with their entries in source order, and an index
//! of declarations sorted by name and by scope.

use vstd::prelude::*;
use vstd::string::StringExecFns;
use crate::semantic_analysis::SemanticErrorType;
use crate::statement_tree::{tree_view, StatementTree, TreeView};
use crate::symbol_declaration::{DeclId, DeclView, SymbolDecl};
use crate::text::{append_decimal, decimal, lemma_lex_lt_irreflexive, lemma_lex_lt_transitive,
    lex_lt, string_lt};

verus! {

/// The kind of a scope.
#[derive(Debug, PartialEq, Eq, Clone, Copy, Structural)]
pub enum ScopeType {
    Global,
    Function,
    Local,
}

/// An assignment: the variable written, the index where one element of an
/// array is written, and the value.
#[derive(Debug, PartialEq)]
pub struct AssignmentInfo {
    pub var: DeclId,
    pub index: Option<StatementTree>,
    pub assignment: StatementTree,
}

/// The kind of a conditional statement.
#[derive(Debug, PartialEq, Eq, Clone, Copy, Structural)]
pub enum ConditionalStatementType {
    If,
    Else,
    While,
}

/// A conditional statement: its condition, which an `else` lacks, and the
/// scope of its body.
#[derive(Debug, PartialEq)]
pub struct ConditionalStatement {
    pub statement_type: ConditionalStatementType,
    pub condition: Option<StatementTree>,
    pub body_scope: usize,
}

/// The kind of a built-in statement.
#[derive(Debug, PartialEq, Eq, Clone, Copy, Structural)]
pub enum BuiltInFuncType {
    Print,
    Return,
}

/// A built-in statement with its operand.
#[derive(Debug, PartialEq)]
pub struct BuiltInFunc {
    pub func_type: BuiltInFuncType,
    pub statement: StatementTree,
}

/// An entry of a scope.
#[derive(Debug, PartialEq)]
pub enum SymbolEntry {
    Decl(DeclId),
    Scope(usize),
    Parameter(DeclId),
    StatementTree(StatementTree),
    Assignment(AssignmentInfo),
    ConditionalStatement(ConditionalStatement),
    BuiltInFunction(BuiltInFunc),
}

impl SymbolEntry {
    /// The declaration that the entry stands for, where it is the entry of a
    /// declaration or of a parameter.
    pub open spec fn declares(self) -> Option<(Seq<char>, usize)> {
        match self {
            SymbolEntry::Decl(id) => Some((id.0@, id.1)),
            SymbolEntry::Parameter(id) => Some((id.0@, id.1)),
            _ => None,
        }
    }
}

/// A scope: its entries in source order, its kind, its index and the index
/// of the scope around it.
#[derive(Debug, PartialEq)]
pub struct SymbolScope {
    pub symbols: Vec<SymbolEntry>,
    pub scope_type: ScopeType,
    pub scope_id: usize,
    pub parent_scope: usize,
}

impl SymbolScope {
    /// An empty scope.
    pub fn new(scope_type: ScopeType, scope_id: usize, parent_scope: usize) -> (s: SymbolScope)
        ensures
            s.symbols@.len() == 0,
            s.scope_type == scope_type,
            s.scope_id == scope_id,
            s.parent_scope == parent_scope,
    {
        SymbolScope { symbols: Vec::new(), scope_type, scope_id, parent_scope }
    }

    /// Appends the entry of the declaration `id`.
    pub fn add_declaration(&mut self, id: DeclId)
        ensures
            final(self).symbols@ == old(self).symbols@.push(SymbolEntry::Decl(id)),
            final(self).scope_type == old(self).scope_type,
            final(self).scope_id == old(self).scope_id,
            final(self).parent_scope == old(self).parent_scope,
    {
        self.symbols.push(SymbolEntry::Decl(id));
    }

    /// Appends the entry of the parameter `id`.
    pub fn add_parameter(&mut self, id: DeclId)
        ensures
            final(self).symbols@ == old(self).symbols@.push(SymbolEntry::Parameter(id)),
            final(self).scope_type == old(self).scope_type,
            final(self).scope_id == old(self).scope_id,
            final(self).parent_scope == old(self).parent_scope,
    {
        self.symbols.push(SymbolEntry::Parameter(id));
    }

    /// The entries in source order.
    pub fn get_symbols(&self) -> (r: &Vec<SymbolEntry>)
        ensures
            r == &self.symbols,
    {
        &self.symbols
    }
}

/// An entry of a scope as a mathematical value.
pub enum EntryView {
    Decl(Seq<char>, usize),
    Scope(usize),
    Parameter(Seq<char>, usize),
    StatementTree(TreeView),
    Assignment(Seq<char>, usize, Option<TreeView>, TreeView),
    ConditionalStatement(ConditionalStatementType, Option<TreeView>, usize),
    BuiltInFunction(BuiltInFuncType, TreeView),
}

/// The tree `tree` as a mathematical value, where there is one.
pub open spec fn tree_option_view(tree: Option<StatementTree>) -> Option<TreeView> {
    match tree {
        Some(tree) => Some(tree_view(tree)),
        None => None,
    }
}

impl View for SymbolEntry {
    type V = EntryView;

    open spec fn view(&self) -> EntryView {
        match self {
            SymbolEntry::Decl(id) => EntryView::Decl(id.0@, id.1),
            SymbolEntry::Scope(inner) => EntryView::Scope(*inner),
            SymbolEntry::Parameter(id) => EntryView::Parameter(id.0@, id.1),
            SymbolEntry::StatementTree(tree) => EntryView::StatementTree(tree_view(*tree)),
            SymbolEntry::Assignment(info) => EntryView::Assignment(
                info.var.0@,
                info.var.1,
                tree_option_view(info.index),
                tree_view(info.assignment),
            ),
            SymbolEntry::ConditionalStatement(cond) => EntryView::ConditionalStatement(
                cond.statement_type,
                tree_option_view(cond.condition),
                cond.body_scope,
            ),
            SymbolEntry::BuiltInFunction(func) => EntryView::BuiltInFunction(
                func.func_type,
                tree_view(func.statement),
            ),
        }
    }
}

/// A scope as a mathematical value.
pub struct ScopeView {
    pub symbols: Seq<EntryView>,
    pub scope_type: ScopeType,
    pub scope_id: usize,
    pub parent_scope: usize,
}

impl View for SymbolScope {
    type V = ScopeView;

    open spec fn view(&self) -> ScopeView {
        ScopeView {
            symbols: Seq::new(self.symbols@.len(), |i: int| self.symbols@[i]@),
            scope_type: self.scope_type,
            scope_id: self.scope_id,
            parent_scope: self.parent_scope,
        }
    }
}

/// The declarations of one name, sorted by scope.
pub type DeclList = (Seq<char>, Seq<DeclView>);

/// A symbol table as a mathematical value.
pub struct TableView {
    pub scopes: Seq<ScopeView>,
    pub decls: Seq<DeclList>,
}

/// The declarations `list` as mathematical values.
pub open spec fn list_view(list: Seq<SymbolDecl>) -> Seq<DeclView> {
    Seq::new(list.len(), |j: int| list[j]@)
}

/// The index of declarations `decls` as a mathematical value.
pub open spec fn decls_view(decls: Seq<(String, Vec<SymbolDecl>)>) -> Seq<DeclList> {
    Seq::new(decls.len(), |k: int| (decls[k].0@, list_view(decls[k].1@)))
}

/// The scopes `scopes` as mathematical values.
pub open spec fn scopes_view(scopes: Seq<SymbolScope>) -> Seq<ScopeView> {
    Seq::new(scopes.len(), |i: int| scopes[i]@)
}

/// The place of `name` in the sorted index `decls`: the number of names
/// that precede it.
pub open spec fn name_bound(decls: Seq<DeclList>, name: Seq<char>) -> int
    decreases decls.len(),
{
    if decls.len() == 0 {
        0
    } else if lex_lt(decls.last().0, name) {
        decls.len() as int
    } else {
        name_bound(decls.drop_last(), name)
    }
}

/// The place of `scope` in the list `list`, sorted by scope: the number of
/// declarations of scopes below it.
pub open spec fn scope_bound(list: Seq<DeclView>, scope: usize) -> int
    decreases list.len(),
{
    if list.len() == 0 {
        0
    } else if list.last().scope < scope {
        list.len() as int
    } else {
        scope_bound(list.drop_last(), scope)
    }
}

/// The declaration of `scope` in the list `list`, where it holds one.
pub open spec fn decl_of_scope(list: Seq<DeclView>, scope: usize) -> Option<DeclView> {
    let j = scope_bound(list, scope);
    if 0 <= j < list.len() && list[j].scope == scope {
        Some(list[j])
    } else {
        None
    }
}

/// The declarations of `name` in the index `decls`; none where it holds
/// none.
pub open spec fn decls_of_name(decls: Seq<DeclList>, name: Seq<char>) -> Seq<DeclView> {
    let k = name_bound(decls, name);
    if 0 <= k < decls.len() && decls[k].0 == name {
        decls[k].1
    } else {
        Seq::empty()
    }
}

impl TableView {
    /// The declaration of the list `list` that a use in scope `scope`
    /// refers to: that of the nearest scope, from `scope` outward, that
    /// the list holds a declaration of.
    pub open spec fn nearest(self, list: Seq<DeclView>, scope: usize) -> Option<DeclView>
        decreases scope,
    {
        if scope >= self.scopes.len() {
            None
        } else {
            match decl_of_scope(list, scope) {
                Some(d) => Some(d),
                None => if scope == 0 || self.scopes[scope as int].parent_scope >= scope {
                    None
                } else {
                    self.nearest(list, self.scopes[scope as int].parent_scope)
                },
            }
        }
    }

    /// The declaration that a use of `name` in scope `scope` refers to.
    pub open spec fn lookup(self, name: Seq<char>, scope: usize) -> Option<DeclView> {
        self.nearest(decls_of_name(self.decls, name), scope)
    }

    /// The index after `d` was declared; none where its name is declared in
    /// its scope already.
    pub open spec fn declare(self, d: DeclView) -> Option<Seq<DeclList>> {
        let k = name_bound(self.decls, d.name);
        if 0 <= k < self.decls.len() && self.decls[k].0 == d.name {
            let list = self.decls[k].1;
            let j = scope_bound(list, d.scope);
            if 0 <= j < list.len() && list[j].scope == d.scope {
                None
            } else {
                Some(self.decls.update(k, (d.name, list.insert(j, d))))
            }
        } else {
            Some(self.decls.insert(k, (d.name, seq![d])))
        }
    }

    /// The table with the entry `entry` appended to scope `scope`.
    pub open spec fn with_entry(self, scope: usize, entry: EntryView) -> TableView {
        TableView {
            scopes: self.scopes.update(
                scope as int,
                ScopeView {
                    symbols: self.scopes[scope as int].symbols.push(entry),
                    ..self.scopes[scope as int]
                },
            ),
            ..self
        }
    }

    /// The table with an empty scope of kind `scope_type` inside scope
    /// `parent` appended.
    pub open spec fn with_scope(self, scope_type: ScopeType, parent: usize) -> TableView {
        TableView {
            scopes: self.scopes.push(
                ScopeView {
                    symbols: Seq::empty(),
                    scope_type,
                    scope_id: self.scopes.len() as usize,
                    parent_scope: parent,
                },
            ),
            ..self
        }
    }

    /// The table of the global scope alone, without declarations.
    pub open spec fn initial() -> TableView {
        TableView {
            scopes: seq![
                ScopeView {
                    symbols: Seq::empty(),
                    scope_type: ScopeType::Global,
                    scope_id: 0,
                    parent_scope: 0,
                },
            ],
            decls: Seq::empty(),
        }
    }

    /// The table after `d` was declared, with the entry `entry` for it in
    /// its scope; none where its name is declared in its scope already.
    pub open spec fn declared_with(self, d: DeclView, entry: EntryView) -> Option<TableView> {
        match self.declare(d) {
            Some(decls) => Some((TableView { decls, ..self }).with_entry(d.scope, entry)),
            None => None,
        }
    }
}

impl View for SymbolTable {
    type V = TableView;

    open spec fn view(&self) -> TableView {
        TableView { scopes: scopes_view(self.scopes@), decls: decls_view(self.decls@) }
    }
}

/// Index of the global scope.
pub const GLOBAL_SCOPE: usize = 0;

/// The symbol table.
#[derive(Debug, PartialEq)]
pub struct SymbolTable {
    pub scopes: Vec<SymbolScope>,
    pub decls: Vec<(String, Vec<SymbolDecl>)>,
}

/// The message of a declaration that exists already.
pub open spec fn duplicate_message(name: Seq<char>, scope: nat) -> Seq<char> {
    "Symbol "@ + name + " already declared in scope "@ + decimal(scope)
}

impl SymbolTable {
    /// The scopes form a tree rooted in the global scope, each scope after
    /// the scope around it.
    pub open spec fn scopes_wf(self) -> bool {
        &&& self.scopes@.len() >= 1
        &&& self.scopes@[0].parent_scope == 0
        &&& forall|i: int|
            0 < i < self.scopes@.len() ==> (#[trigger] self.scopes@[i]).parent_scope < i
        &&& forall|i: int|
            0 <= i < self.scopes@.len() ==> (#[trigger] self.scopes@[i]).scope_id == i
    }

    /// The index of declarations is sorted by name, and under each name by
    /// scope; no list is empty, and each declaration lies under its name and
    /// in a scope of the table.
    pub open spec fn decls_wf(self) -> bool {
        &&& forall|k: int|
            0 <= k < self.decls@.len() ==> (#[trigger] self.decls@[k]).1@.len() > 0
        &&& forall|k: int, j: int|
            0 <= k < self.decls@.len() && 0 <= j < self.decls@[k].1@.len() ==> {
                &&& (#[trigger] self.decls@[k].1@[j]).name@ == self.decls@[k].0@
                &&& self.decls@[k].1@[j].scope < self.scopes@.len()
            }
        &&& forall|k1: int, k2: int|
            0 <= k1 < k2 < self.decls@.len() ==> lex_lt(
                (#[trigger] self.decls@[k1]).0@,
                (#[trigger] self.decls@[k2]).0@,
            )
        &&& forall|k: int, j1: int, j2: int|
            0 <= k < self.decls@.len() && 0 <= j1 < j2 < self.decls@[k].1@.len() ==> (
            #[trigger] self.decls@[k].1@[j1]).scope < (#[trigger] self.decls@[k].1@[j2]).scope
    }

    /// Whether the index holds a declaration of `name` in scope `scope` at
    /// place `j` of list `k`.
    pub open spec fn declared_at(self, name: Seq<char>, scope: usize, k: int, j: int) -> bool {
        &&& 0 <= k < self.decls@.len()
        &&& 0 <= j < self.decls@[k].1@.len()
        &&& self.decls@[k].0@ == name
        &&& self.decls@[k].1@[j].scope == scope
    }

    /// Whether `name` is declared in scope `scope`.
    pub open spec fn declared(self, name: Seq<char>, scope: usize) -> bool {
        exists|k: int, j: int| self.declared_at(name, scope, k, j)
    }

    /// Whether entry `e` of scope `s` stands for the declaration of `name`
    /// in scope `scope`.
    pub open spec fn entry_at(self, name: Seq<char>, scope: usize, s: int, e: int) -> bool {
        &&& 0 <= s < self.scopes@.len()
        &&& 0 <= e < self.scopes@[s].symbols@.len()
        &&& self.scopes@[s].symbols@[e].declares() == Some((name, scope))
    }

    /// Declarations and the entries of scopes correspond: every declaration
    /// has an entry in its scope, every such entry lies in the scope that it
    /// names and stands for a declaration, and no scope has two entries for
    /// one declaration.
    pub open spec fn entries_wf(self) -> bool {
        &&& forall|name: Seq<char>, scope: usize| #[trigger]
            self.declared(name, scope) ==> exists|e: int|
                self.entry_at(name, scope, scope as int, e)
        &&& forall|name: Seq<char>, scope: usize, s: int, e: int| #[trigger]
            self.entry_at(name, scope, s, e) ==> s == scope && self.declared(name, scope)
        &&& forall|name: Seq<char>, scope: usize, s: int, e1: int, e2: int|
            #![trigger self.entry_at(name, scope, s, e1), self.entry_at(name, scope, s, e2)]
            self.entry_at(name, scope, s, e1) && self.entry_at(name, scope, s, e2) ==> e1 == e2
    }

    /// The table is well formed.
    pub open spec fn wf(self) -> bool {
        &&& self.scopes_wf()
        &&& self.decls_wf()
        &&& self.entries_wf()
    }

    /// The scope around scope `s`.
    pub open spec fn parent_of(self, s: usize) -> usize
        recommends
            s < self.scopes@.len(),
    {
        self.scopes@[s as int].parent_scope
    }

    /// The scope that a use of `name` in scope `scope` refers to: `scope`
    /// itself if it declares the name, else what a use in the scope around
    /// it refers to; nothing where the global scope is reached without a
    /// declaration.
    pub open spec fn resolve(self, name: Seq<char>, scope: usize) -> Option<usize>
        decreases scope,
    {
        if scope >= self.scopes@.len() {
            None
        } else if self.declared(name, scope) {
            Some(scope)
        } else if scope == 0 || self.parent_of(scope) >= scope {
            None
        } else {
            self.resolve(name, self.parent_of(scope))
        }
    }

    /// A table with the global scope alone.
    pub fn new() -> (t: SymbolTable)
        ensures
            t.wf(),
            t.scopes@.len() == 1,
            t.scopes@[0].symbols@.len() == 0,
            t.scopes@[0].scope_type == ScopeType::Global,
            t.decls@.len() == 0,
            t@ == TableView::initial(),
    {
        let mut scopes: Vec<SymbolScope> = Vec::new();
        scopes.push(SymbolScope::new(ScopeType::Global, GLOBAL_SCOPE, GLOBAL_SCOPE));
        let t = SymbolTable { scopes, decls: Vec::new() };
        assert(forall|name: Seq<char>, scope: usize| !t.declared(name, scope));
        assert(t@.scopes[0].symbols =~= Seq::empty());
        assert(t@.scopes =~= TableView::initial().scopes);
        assert(t@.decls =~= TableView::initial().decls);
        t
    }

    /// Appends an empty scope of kind `scope_type` inside scope `curr_scope`
    /// and returns its index.
    pub fn add_scope(&mut self, scope_type: ScopeType, curr_scope: usize) -> (r: usize)
        requires
            old(self).wf(),
            curr_scope < old(self).scopes@.len(),
        ensures
            final(self).wf(),
            r == old(self).scopes@.len(),
            final(self).scopes@ == old(self).scopes@.push(
                SymbolScope {
                    symbols: final(self).scopes@[r as int].symbols,
                    scope_type,
                    scope_id: r,
                    parent_scope: curr_scope,
                },
            ),
            final(self).scopes@[r as int].symbols@.len() == 0,
            final(self).decls == old(self).decls,
            final(self)@ == old(self)@.with_scope(scope_type, curr_scope),
    {
        let id = self.scopes.len();
        self.scopes.push(SymbolScope::new(scope_type, id, curr_scope));
        assert(self@.scopes =~= old(self)@.scopes.push(
            ScopeView {
                symbols: Seq::empty(),
                scope_type,
                scope_id: id,
                parent_scope: curr_scope,
            },
        )) by {
            assert(self.scopes@[id as int]@.symbols =~= Seq::<EntryView>::empty());
        }
        proof {
            let old_t = *old(self);
            let new_t = *self;
            assert forall|name: Seq<char>, scope: usize, k: int, j: int|
                new_t.declared_at(name, scope, k, j) == old_t.declared_at(name, scope, k, j) by {}
            assert forall|name: Seq<char>, scope: usize|
                new_t.declared(name, scope) == old_t.declared(name, scope) by {
                if old_t.declared(name, scope) {
                    let (k, j) = choose|k: int, j: int| old_t.declared_at(name, scope, k, j);
                    assert(new_t.declared_at(name, scope, k, j));
                }
                if new_t.declared(name, scope) {
                    let (k, j) = choose|k: int, j: int| new_t.declared_at(name, scope, k, j);
                    assert(old_t.declared_at(name, scope, k, j));
                }
            }
            assert forall|name: Seq<char>, scope: usize, s: int, e: int|
                new_t.entry_at(name, scope, s, e) == old_t.entry_at(name, scope, s, e) by {}
            assert forall|name: Seq<char>, scope: usize| #[trigger]
                new_t.declared(name, scope) implies exists|e: int|
                new_t.entry_at(name, scope, scope as int, e) by {
                let e = choose|e: int| old_t.entry_at(name, scope, scope as int, e);
                assert(new_t.entry_at(name, scope, scope as int, e));
            }
        }
        id
    }

    /// The scope with index `scope`.
    pub fn get_scope(&self, scope: usize) -> (r: &SymbolScope)
        requires
            scope < self.scopes@.len(),
        ensures
            *r == self.scopes@[scope as int],
    {
        &self.scopes[scope]
    }

    /// The index of the scope around scope `curr_scope`.
    pub fn get_parent_scope(&self, curr_scope: usize) -> (r: usize)
        requires
            curr_scope < self.scopes@.len(),
        ensures
            r == self.parent_of(curr_scope),
    {
        self.scopes[curr_scope].parent_scope
    }

    /// Whether the index holds the declaration `d`.
    pub open spec fn holds(self, d: SymbolDecl) -> bool {
        exists|k: int, j: int|
            0 <= k < self.decls@.len() && 0 <= j < self.decls@[k].1@.len()
                && #[trigger] self.decls@[k].1@[j] == d
    }

    /// Puts `decl` into the index of declarations, unless its name is
    /// declared in its scope already.
    pub fn insert_decl(&mut self, decl: SymbolDecl) -> (r: Result<(), SemanticErrorType>)
        requires
            old(self).scopes_wf(),
            old(self).decls_wf(),
            decl.scope < old(self).scopes@.len(),
        ensures
            final(self).scopes == old(self).scopes,
            final(self).decls_wf(),
            r is Err <==> old(self).declared(decl.name@, decl.scope),
            r matches Err(e) ==> final(self).decls == old(self).decls && (e matches SemanticErrorType::DuplicateDeclaration(m)
                && m@ == duplicate_message(decl.name@, decl.scope as nat)),
            r is Ok ==> final(self).holds(decl),
            r is Ok ==> forall|d: SymbolDecl| old(self).holds(d) ==> final(self).holds(d),
            r is Ok ==> forall|name: Seq<char>, scope: usize|
                final(self).declared(name, scope) <==> (old(self).declared(name, scope) || (name
                    == decl.name@ && scope == decl.scope)),
            r is Ok ==> old(self)@.declare(decl@) == Some(final(self)@.decls),
            r is Err ==> old(self)@.declare(decl@) is None,
    {
        let mut low: usize = 0;
        let mut high: usize = self.decls.len();
        while low < high
            invariant
                *self == *old(self),
                self.decls_wf(),
                decl.scope < self.scopes@.len(),
                0 <= low <= high <= self.decls@.len(),
                forall|k: int| 0 <= k < low ==> lex_lt((#[trigger] self.decls@[k]).0@, decl.name@),
                forall|k: int|
                    high <= k < self.decls@.len() ==> lex_lt(
                        decl.name@,
                        (#[trigger] self.decls@[k]).0@,
                    ),
            decreases high - low,
        {
            let index: usize = low + (high - low) / 2;
            if self.decls[index].0 == decl.name {
                let mut lo: usize = 0;
                let mut hi: usize = self.decls[index].1.len();
                while lo < hi
                    invariant
                        *self == *old(self),
                        self.decls_wf(),
                        decl.scope < self.scopes@.len(),
                        0 <= index < self.decls@.len(),
                        self.decls@[index as int].0@ == decl.name@,
                        0 <= lo <= hi <= self.decls@[index as int].1@.len(),
                        forall|j: int|
                            0 <= j < lo ==> (#[trigger] self.decls@[index as int].1@[j]).scope
                                < decl.scope,
                        forall|j: int|
                            hi <= j < self.decls@[index as int].1@.len() ==> (
                            #[trigger] self.decls@[index as int].1@[j]).scope > decl.scope,
                    decreases hi - lo,
                {
                    let decl_index: usize = lo + (hi - lo) / 2;
                    let found_scope: usize = self.decls[index].1[decl_index].scope;
                    if found_scope == decl.scope {
                        assert(self.declared_at(
                            decl.name@,
                            decl.scope,
                            index as int,
                            decl_index as int,
                        ));
                        proof {
                            self.lemma_list_of_name(index as int);
                            self.lemma_decl_of_scope(index as int, decl_index as int);
                            assert(self@.decls[index as int].1 == list_view(
                                self.decls@[index as int].1@,
                            ));
                        }
                        let mut message = String::from_str("Symbol ");
                        message.append(decl.name.as_str());
                        message.append(" already declared in scope ");
                        append_decimal(&mut message, decl.scope as u64);
                        return Err(SemanticErrorType::DuplicateDeclaration(message));
                    } else if found_scope < decl.scope {
                        lo = decl_index + 1;
                    } else {
                        hi = decl_index;
                    }
                }
                let ghost old_list = self.decls@[index as int].1@;
                proof {
                    self.lemma_list_of_name(index as int);
                    let lv = list_view(old_list);
                    Self::lemma_scope_bound(lv, decl.scope, lo as int);
                    assert(self@.decls[index as int].1 == lv);
                }
                self.decls[index].1.insert(lo, decl);
                proof {
                    Self::lemma_insert_in_list(*old(self), *self, index as int, lo as int, decl);
                    let before = old(self)@.decls;
                    let lv = list_view(old_list);
                    assert(list_view(self.decls@[index as int].1@) =~= lv.insert(lo as int, decl@));
                    assert(self@.decls =~= before.update(
                        index as int,
                        (decl.name@, lv.insert(lo as int, decl@)),
                    )) by {
                        assert forall|k: int| 0 <= k < self@.decls.len() && k != index implies self@.decls[k]
                            == before[k] by {
                            assert(self.decls@[k] == old(self).decls@[k]);
                        }
                    }
                }
                return Ok(());
            } else if string_lt(self.decls[index].0.as_str(), decl.name.as_str()) {
                proof {
                    assert forall|k: int| 0 <= k < index + 1 implies lex_lt(
                        (#[trigger] self.decls@[k]).0@,
                        decl.name@,
                    ) by {
                        if k < index {
                            lemma_lex_lt_transitive(
                                self.decls@[k].0@,
                                self.decls@[index as int].0@,
                                decl.name@,
                            );
                        }
                    }
                }
                low = index + 1;
            } else {
                proof {
                    crate::text::lemma_lex_lt_total(self.decls@[index as int].0@, decl.name@);
                    assert forall|k: int| index <= k < self.decls@.len() implies lex_lt(
                        decl.name@,
                        (#[trigger] self.decls@[k]).0@,
                    ) by {
                        if k > index {
                            lemma_lex_lt_transitive(
                                decl.name@,
                                self.decls@[index as int].0@,
                                self.decls@[k].0@,
                            );
                        }
                    }
                }
                high = index;
            }
        }
        let ghost name = decl.name@;
        proof {
            let before = old(self)@.decls;
            lemma_lex_lt_irreflexive(name);
            assert forall|k: int| 0 <= k < low implies lex_lt(#[trigger] before[k].0, name) by {
                assert(lex_lt(self.decls@[k].0@, name));
            }
            assert forall|k: int| low <= k < before.len() implies !lex_lt(
                #[trigger] before[k].0,
                name,
            ) by {
                assert(lex_lt(name, self.decls@[k].0@));
                crate::text::lemma_lex_lt_asymmetric(name, before[k].0);
            }
            Self::lemma_name_bound(before, name, low as int);
            if low < before.len() {
                assert(lex_lt(name, self.decls@[low as int].0@));
            }
        }
        let mut list: Vec<SymbolDecl> = Vec::new();
        let key = decl.name.clone();
        list.push(decl);
        self.decls.insert(low, (key, list));
        proof {
            Self::lemma_insert_new_name(*old(self), *self, low as int, decl);
            let before = old(self)@.decls;
            assert(list_view(self.decls@[low as int].1@) =~= seq![decl@]);
            assert(self@.decls =~= before.insert(low as int, (name, seq![decl@]))) by {
                assert forall|k: int| 0 <= k < self@.decls.len() && k != low implies self@.decls[k]
                    == before.insert(low as int, (name, seq![decl@]))[k] by {
                    if k < low {
                        assert(self.decls@[k] == old(self).decls@[k]);
                    } else {
                        assert(self.decls@[k] == old(self).decls@[k - 1]);
                    }
                }
            }
        }
        Ok(())
    }

    /// What holds after `decl` entered list `index` at place `at`.
    proof fn lemma_insert_in_list(
        before: SymbolTable,
        after: SymbolTable,
        index: int,
        at: int,
        decl: SymbolDecl,
    )
        requires
            before.decls_wf(),
            after.scopes == before.scopes,
            decl.scope < before.scopes@.len(),
            0 <= index < before.decls@.len(),
            0 <= at <= before.decls@[index].1@.len(),
            before.decls@[index].0@ == decl.name@,
            forall|j: int| 0 <= j < at ==> (#[trigger] before.decls@[index].1@[j]).scope < decl.scope,
            forall|j: int|
                at <= j < before.decls@[index].1@.len() ==> (#[trigger] before.decls@[index].1@[j]).scope
                    > decl.scope,
            after.decls@.len() == before.decls@.len(),
            after.decls@[index].0 == before.decls@[index].0,
            after.decls@[index].1@ == before.decls@[index].1@.insert(at, decl),
            forall|k: int|
                0 <= k < before.decls@.len() && k != index ==> after.decls@[k] == before.decls@[k],
        ensures
            after.decls_wf(),
            !before.declared(decl.name@, decl.scope),
            after.holds(decl),
            forall|d: SymbolDecl| before.holds(d) ==> after.holds(d),
            forall|name: Seq<char>, scope: usize|
                after.declared(name, scope) <==> (before.declared(name, scope) || (name == decl.name@
                    && scope == decl.scope)),
    {
        let old_list = before.decls@[index].1@;
        let new_list = after.decls@[index].1@;
        assert(new_list.len() == old_list.len() + 1);
        assert(forall|j: int| 0 <= j < at ==> new_list[j] == old_list[j]);
        assert(new_list[at] == decl);
        assert(forall|j: int| at < j < new_list.len() ==> new_list[j] == old_list[j - 1]);
        // sortedness by name is untouched
        assert forall|k1: int, k2: int| 0 <= k1 < k2 < after.decls@.len() implies lex_lt(
            (#[trigger] after.decls@[k1]).0@,
            (#[trigger] after.decls@[k2]).0@,
        ) by {
            assert(after.decls@[k1].0@ == before.decls@[k1].0@);
            assert(after.decls@[k2].0@ == before.decls@[k2].0@);
        }
        assert forall|k: int, j: int|
            0 <= k < after.decls@.len() && 0 <= j < after.decls@[k].1@.len() implies {
            &&& (#[trigger] after.decls@[k].1@[j]).name@ == after.decls@[k].0@
            &&& after.decls@[k].1@[j].scope < after.scopes@.len()
        } by {
            if k == index {
                if j < at {
                    assert(new_list[j] == old_list[j]);
                } else if j > at {
                    assert(new_list[j] == old_list[j - 1]);
                }
            } else {
                assert(after.decls@[k] == before.decls@[k]);
            }
        }
        assert forall|k: int, j1: int, j2: int|
            0 <= k < after.decls@.len() && 0 <= j1 < j2 < after.decls@[k].1@.len() implies (
        #[trigger] after.decls@[k].1@[j1]).scope < (#[trigger] after.decls@[k].1@[j2]).scope by {
            if k == index {
                let a = if j1 < at { j1 } else { j1 - 1 };
                let b = if j2 < at { j2 } else { j2 - 1 };
                if j1 != at {
                    assert(new_list[j1] == old_list[a]);
                }
                if j2 != at {
                    assert(new_list[j2] == old_list[b]);
                }
            } else {
                assert(after.decls@[k] == before.decls@[k]);
            }
        }
        assert forall|k: int| 0 <= k < after.decls@.len() implies (#[trigger] after.decls@[k]).1@.len()
            > 0 by {
            if k != index {
                assert(after.decls@[k] == before.decls@[k]);
            }
        }
        // the name was not declared in the scope
        if before.declared(decl.name@, decl.scope) {
            let (k, j) = choose|k: int, j: int| before.declared_at(decl.name@, decl.scope, k, j);
            if k < index {
                assert(lex_lt(before.decls@[k].0@, before.decls@[index].0@));
                lemma_lex_lt_irreflexive(decl.name@);
            } else if k > index {
                assert(lex_lt(before.decls@[index].0@, before.decls@[k].0@));
                lemma_lex_lt_irreflexive(decl.name@);
            } else {
                assert(before.decls@[index].1@[j].scope == decl.scope);
            }
        }
        assert(after.decls@[index].1@[at] == decl);
        assert forall|d: SymbolDecl| before.holds(d) implies after.holds(d) by {
            let (k, j) = choose|k: int, j: int|
                0 <= k < before.decls@.len() && 0 <= j < before.decls@[k].1@.len()
                    && #[trigger] before.decls@[k].1@[j] == d;
            if k == index {
                let j2 = if j < at { j } else { j + 1 };
                assert(new_list[j2] == old_list[j]);
                assert(after.decls@[k].1@[j2] == d);
            } else {
                assert(after.decls@[k] == before.decls@[k]);
                assert(after.decls@[k].1@[j] == d);
            }
        }
        assert forall|name: Seq<char>, scope: usize|
            after.declared(name, scope) <==> (before.declared(name, scope) || (name == decl.name@
                && scope == decl.scope)) by {
            if before.declared(name, scope) {
                let (k, j) = choose|k: int, j: int| before.declared_at(name, scope, k, j);
                if k == index {
                    let j2 = if j < at { j } else { j + 1 };
                    assert(new_list[j2] == old_list[j]);
                    assert(after.declared_at(name, scope, k, j2));
                } else {
                    assert(after.decls@[k] == before.decls@[k]);
                    assert(after.declared_at(name, scope, k, j));
                }
            }
            if name == decl.name@ && scope == decl.scope {
                assert(after.declared_at(name, scope, index, at));
            }
            if after.declared(name, scope) {
                let (k, j) = choose|k: int, j: int| after.declared_at(name, scope, k, j);
                if k == index {
                    if j < at {
                        assert(new_list[j] == old_list[j]);
                        assert(before.declared_at(name, scope, k, j));
                    } else if j > at {
                        assert(new_list[j] == old_list[j - 1]);
                        assert(before.declared_at(name, scope, k, j - 1));
                    }
                } else {
                    assert(after.decls@[k] == before.decls@[k]);
                    assert(before.declared_at(name, scope, k, j));
                }
            }
        }
    }

    /// What holds after a list with `decl` alone entered the index at place
    /// `at`.
    proof fn lemma_insert_new_name(before: SymbolTable, after: SymbolTable, at: int, decl: SymbolDecl)
        requires
            before.decls_wf(),
            after.scopes == before.scopes,
            decl.scope < before.scopes@.len(),
            0 <= at <= before.decls@.len(),
            forall|k: int| 0 <= k < at ==> lex_lt((#[trigger] before.decls@[k]).0@, decl.name@),
            forall|k: int|
                at <= k < before.decls@.len() ==> lex_lt(decl.name@, (#[trigger] before.decls@[k]).0@),
            after.decls@.len() == before.decls@.len() + 1,
            forall|k: int| 0 <= k < at ==> after.decls@[k] == before.decls@[k],
            forall|k: int| at < k < after.decls@.len() ==> after.decls@[k] == before.decls@[k - 1],
            after.decls@[at].0@ == decl.name@,
            after.decls@[at].1@ == seq![decl],
        ensures
            after.decls_wf(),
            !before.declared(decl.name@, decl.scope),
            after.holds(decl),
            forall|d: SymbolDecl| before.holds(d) ==> after.holds(d),
            forall|name: Seq<char>, scope: usize|
                after.declared(name, scope) <==> (before.declared(name, scope) || (name == decl.name@
                    && scope == decl.scope)),
    {
        let shift = |k: int| if k < at { k } else { k + 1 };
        let unshift = |k: int| if k < at { k } else { k - 1 };
        assert forall|k: int| 0 <= k < after.decls@.len() implies (#[trigger] after.decls@[k]).1@.len()
            > 0 by {
            if k != at {
                assert(after.decls@[k] == before.decls@[unshift(k)]);
            }
        }
        assert forall|k: int, j: int|
            0 <= k < after.decls@.len() && 0 <= j < after.decls@[k].1@.len() implies {
            &&& (#[trigger] after.decls@[k].1@[j]).name@ == after.decls@[k].0@
            &&& after.decls@[k].1@[j].scope < after.scopes@.len()
        } by {
            if k != at {
                assert(after.decls@[k] == before.decls@[unshift(k)]);
            }
        }
        assert forall|k1: int, k2: int| 0 <= k1 < k2 < after.decls@.len() implies lex_lt(
            (#[trigger] after.decls@[k1]).0@,
            (#[trigger] after.decls@[k2]).0@,
        ) by {
            if k1 != at {
                assert(after.decls@[k1] == before.decls@[unshift(k1)]);
            }
            if k2 != at {
                assert(after.decls@[k2] == before.decls@[unshift(k2)]);
            }
        }
        assert forall|k: int, j1: int, j2: int|
            0 <= k < after.decls@.len() && 0 <= j1 < j2 < after.decls@[k].1@.len() implies (
        #[trigger] after.decls@[k].1@[j1]).scope < (#[trigger] after.decls@[k].1@[j2]).scope by {
            if k != at {
                assert(after.decls@[k] == before.decls@[unshift(k)]);
            }
        }
        if before.declared(decl.name@, decl.scope) {
            let (k, j) = choose|k: int, j: int| before.declared_at(decl.name@, decl.scope, k, j);
            lemma_lex_lt_irreflexive(decl.name@);
        }
        assert(after.decls@[at].1@[0] == decl);
        assert forall|d: SymbolDecl| before.holds(d) implies after.holds(d) by {
            let (k, j) = choose|k: int, j: int|
                0 <= k < before.decls@.len() && 0 <= j < before.decls@[k].1@.len()
                    && #[trigger] before.decls@[k].1@[j] == d;
            assert(after.decls@[shift(k)] == before.decls@[k]);
            assert(after.decls@[shift(k)].1@[j] == d);
        }
        assert forall|name: Seq<char>, scope: usize|
            after.declared(name, scope) <==> (before.declared(name, scope) || (name == decl.name@
                && scope == decl.scope)) by {
            if before.declared(name, scope) {
                let (k, j) = choose|k: int, j: int| before.declared_at(name, scope, k, j);
                assert(after.decls@[shift(k)] == before.decls@[k]);
                assert(after.declared_at(name, scope, shift(k), j));
            }
            if name == decl.name@ && scope == decl.scope {
                assert(after.declared_at(name, scope, at, 0));
            }
            if after.declared(name, scope) {
                let (k, j) = choose|k: int, j: int| after.declared_at(name, scope, k, j);
                if k != at {
                    assert(after.decls@[k] == before.decls@[unshift(k)]);
                    assert(before.declared_at(name, scope, unshift(k), j));
                }
            }
        }
    }

    /// The declaration of `name` in scope `scope`.
    pub open spec fn decl_in(self, name: Seq<char>, scope: usize) -> SymbolDecl {
        choose|d: SymbolDecl| self.holds(d) && d.name@ == name && d.scope == scope
    }

    /// The declaration that a use of `name` in scope `scope` refers to.
    pub open spec fn lookup(self, name: Seq<char>, scope: usize) -> Option<SymbolDecl> {
        match self.resolve(name, scope) {
            Some(s) => Some(self.decl_in(name, s)),
            None => None,
        }
    }

    /// The index holds one declaration at most of a name in a scope.
    pub proof fn lemma_holds_unique(self, d1: SymbolDecl, d2: SymbolDecl)
        requires
            self.decls_wf(),
            self.holds(d1),
            self.holds(d2),
            d1.name@ == d2.name@,
            d1.scope == d2.scope,
        ensures
            d1 == d2,
    {
        let (k1, j1) = choose|k: int, j: int|
            0 <= k < self.decls@.len() && 0 <= j < self.decls@[k].1@.len()
                && #[trigger] self.decls@[k].1@[j] == d1;
        let (k2, j2) = choose|k: int, j: int|
            0 <= k < self.decls@.len() && 0 <= j < self.decls@[k].1@.len()
                && #[trigger] self.decls@[k].1@[j] == d2;
        assert(self.declared_at(d2.name@, d2.scope, k2, j2));
        self.lemma_one_list(d2.name@, d2.scope, k1, k2, j2);
        if j1 < j2 {
            assert(self.decls@[k1].1@[j1].scope < self.decls@[k1].1@[j2].scope);
        } else if j2 < j1 {
            assert(self.decls@[k1].1@[j2].scope < self.decls@[k1].1@[j1].scope);
        }
    }

    /// No scope from `scope` outward declares `name` where none up to
    /// `scope` does.
    proof fn lemma_resolve_none(self, name: Seq<char>, scope: usize)
        requires
            self.scopes_wf(),
            forall|s: usize| s <= scope ==> !self.declared(name, s),
        ensures
            self.resolve(name, scope) is None,
        decreases scope,
    {
        if scope < self.scopes@.len() && scope != 0 && self.parent_of(scope) < scope {
            self.lemma_resolve_none(name, self.parent_of(scope));
        }
    }

    /// In a sorted index a name lies in one list only.
    proof fn lemma_one_list(self, name: Seq<char>, scope: usize, index: int, k: int, j: int)
        requires
            self.decls_wf(),
            0 <= index < self.decls@.len(),
            self.decls@[index].0@ == name,
            self.declared_at(name, scope, k, j),
        ensures
            k == index,
    {
        lemma_lex_lt_irreflexive(name);
        if k < index {
            assert(lex_lt(self.decls@[k].0@, self.decls@[index].0@));
        } else if k > index {
            assert(lex_lt(self.decls@[index].0@, self.decls@[k].0@));
        }
    }

    /// The declaration that a use of `name` in scope `curr_scope` refers to:
    /// the one in the nearest scope, from `curr_scope` outward, that
    /// declares the name.
    pub fn find_decl(&self, name: &String, curr_scope: usize) -> (r: Option<&SymbolDecl>)
        requires
            self.scopes_wf(),
            self.decls_wf(),
        ensures
            r is Some == self.resolve(name@, curr_scope) is Some,
            r matches Some(d) ==> d.name@ == name@ && Some(d.scope) == self.resolve(
                name@,
                curr_scope,
            ) && self.holds(*d),
            r matches Some(d) ==> self.lookup(name@, curr_scope) == Some(*d),
            r is None ==> self.lookup(name@, curr_scope) is None,
            r matches Some(d) ==> self@.lookup(name@, curr_scope) == Some(d@),
            r is None ==> self@.lookup(name@, curr_scope) is None,
    {
        if curr_scope >= self.scopes.len() {
            return None;
        }
        let mut low: usize = 0;
        let mut high: usize = self.decls.len();
        while low < high
            invariant
                self.scopes_wf(),
                self.decls_wf(),
                curr_scope < self.scopes@.len(),
                0 <= low <= high <= self.decls@.len(),
                forall|k: int| 0 <= k < low ==> lex_lt((#[trigger] self.decls@[k]).0@, name@),
                forall|k: int|
                    high <= k < self.decls@.len() ==> lex_lt(name@, (#[trigger] self.decls@[k]).0@),
            decreases high - low,
        {
            let index: usize = low + (high - low) / 2;
            if self.decls[index].0 == *name {
                let list = &self.decls[index].1;
                let mut parent_scope: usize = curr_scope;
                let mut j: usize = list.len();
                let ghost lv = list_view(list@);
                proof {
                    self.lemma_list_of_name(index as int);
                }
                while j > 0
                    invariant
                        self.scopes_wf(),
                        self.decls_wf(),
                        0 <= index < self.decls@.len(),
                        self.decls@[index as int].0@ == name@,
                        *list == self.decls@[index as int].1,
                        0 <= j <= list@.len(),
                        parent_scope < self.scopes@.len(),
                        lv == list_view(list@),
                        self@.lookup(name@, curr_scope) == self@.nearest(lv, parent_scope),
                        self.resolve(name@, curr_scope) == self.resolve(name@, parent_scope),
                        forall|jj: int| j <= jj < list@.len() ==> (#[trigger] list@[jj]).scope
                            > parent_scope,
                    decreases j,
                {
                    j -= 1;
                    let decl = &list[j];
                    while decl.scope < parent_scope
                        invariant
                            self.scopes_wf(),
                            self.decls_wf(),
                            0 <= index < self.decls@.len(),
                            self.decls@[index as int].0@ == name@,
                            *list == self.decls@[index as int].1,
                            0 <= j < list@.len(),
                            *decl == list@[j as int],
                            parent_scope < self.scopes@.len(),
                            lv == list_view(list@),
                            self@.lookup(name@, curr_scope) == self@.nearest(lv, parent_scope),
                            self.resolve(name@, curr_scope) == self.resolve(name@, parent_scope),
                            forall|jj: int| j < jj < list@.len() ==> (#[trigger] list@[jj]).scope
                                > parent_scope,
                        decreases parent_scope,
                    {
                        proof {
                            if self.declared(name@, parent_scope) {
                                let (k, jj) = choose|k: int, jj: int|
                                    self.declared_at(name@, parent_scope, k, jj);
                                self.lemma_one_list(name@, parent_scope, index as int, k, jj);
                                if jj < j {
                                    assert(list@[jj].scope < list@[j as int].scope);
                                }
                            }
                            assert(self.scopes@[parent_scope as int].parent_scope < parent_scope);
                            assert forall|i: int| 0 <= i < j + 1 implies (#[trigger] lv[i]).scope
                                < parent_scope by {
                                if i < j {
                                    assert(list@[i].scope < list@[j as int].scope);
                                }
                            }
                            assert forall|i: int| j + 1 <= i < lv.len() implies (
                            #[trigger] lv[i]).scope >= parent_scope by {
                                assert(list@[i].scope > parent_scope);
                            }
                            Self::lemma_scope_bound(lv, parent_scope, j + 1);
                            assert(decl_of_scope(lv, parent_scope) is None);
                            assert(self@.scopes[parent_scope as int].parent_scope
                                == self.scopes@[parent_scope as int].parent_scope);
                        }
                        parent_scope = self.get_parent_scope(parent_scope);
                    }
                    if decl.scope == parent_scope {
                        proof {
                            assert(self.declared_at(name@, parent_scope, index as int, j as int));
                            assert(self.decls@[index as int].1@[j as int] == *decl);
                            assert(self.holds(*decl));
                            self.lemma_holds_unique(*decl, self.decl_in(name@, parent_scope));
                            self.lemma_decl_of_scope(index as int, j as int);
                            assert(self@.scopes.len() == self.scopes@.len());
                        }
                        return Some(decl);
                    }
                }
                proof {
                    assert forall|s: usize| s <= parent_scope implies !self.declared(name@, s) by {
                        if self.declared(name@, s) {
                            let (k, jj) = choose|k: int, jj: int| self.declared_at(name@, s, k, jj);
                            self.lemma_one_list(name@, s, index as int, k, jj);
                            assert(list@[jj].scope > parent_scope);
                        }
                    }
                    self.lemma_resolve_none(name@, parent_scope);
                    assert forall|i: int| 0 <= i < lv.len() implies (#[trigger] lv[i]).scope
                        > parent_scope by {
                        assert(list@[i].scope > parent_scope);
                    }
                    self.lemma_nearest_none(lv, parent_scope);
                }
                return None;
            } else if string_lt(self.decls[index].0.as_str(), name.as_str()) {
                proof {
                    assert forall|k: int| 0 <= k < index + 1 implies lex_lt(
                        (#[trigger] self.decls@[k]).0@,
                        name@,
                    ) by {
                        if k < index {
                            lemma_lex_lt_transitive(
                                self.decls@[k].0@,
                                self.decls@[index as int].0@,
                                name@,
                            );
                        }
                    }
                }
                low = index + 1;
            } else {
                proof {
                    crate::text::lemma_lex_lt_total(self.decls@[index as int].0@, name@);
                    assert forall|k: int| index <= k < self.decls@.len() implies lex_lt(
                        name@,
                        (#[trigger] self.decls@[k]).0@,
                    ) by {
                        if k > index {
                            lemma_lex_lt_transitive(
                                name@,
                                self.decls@[index as int].0@,
                                self.decls@[k].0@,
                            );
                        }
                    }
                }
                high = index;
            }
        }
        proof {
            lemma_lex_lt_irreflexive(name@);
            assert forall|s: usize| s <= curr_scope implies !self.declared(name@, s) by {
                if self.declared(name@, s) {
                    let (k, jj) = choose|k: int, jj: int| self.declared_at(name@, s, k, jj);
                    assert(lex_lt(self.decls@[k].0@, name@) || lex_lt(name@, self.decls@[k].0@));
                }
            }
            self.lemma_resolve_none(name@, curr_scope);
            let decls = self@.decls;
            assert forall|k: int| 0 <= k < low implies lex_lt(#[trigger] decls[k].0, name@) by {
                assert(lex_lt(self.decls@[k].0@, name@));
            }
            assert forall|k: int| low <= k < decls.len() implies !lex_lt(
                #[trigger] decls[k].0,
                name@,
            ) by {
                assert(lex_lt(name@, self.decls@[k].0@));
                crate::text::lemma_lex_lt_asymmetric(name@, decls[k].0);
            }
            Self::lemma_name_bound(decls, name@, low as int);
            if low < decls.len() {
                assert(lex_lt(name@, self.decls@[low as int].0@));
            }
            self.lemma_nearest_none(Seq::empty(), curr_scope);
        }
        None
    }

    /// The declaration that `id` refers to, looked up from its scope
    /// outward.
    pub fn find_decl_by_id(&self, id: &DeclId) -> (r: Option<&SymbolDecl>)
        requires
            self.scopes_wf(),
            self.decls_wf(),
        ensures
            r is Some == self.resolve(id.0@, id.1) is Some,
            r matches Some(d) ==> d.name@ == id.0@ && Some(d.scope) == self.resolve(id.0@, id.1)
                && self.holds(*d),
            r matches Some(d) ==> self.lookup(id.0@, id.1) == Some(*d),
            r is None ==> self.lookup(id.0@, id.1) is None,
            r matches Some(d) ==> self@.lookup(id.0@, id.1) == Some(d@),
            r is None ==> self@.lookup(id.0@, id.1) is None,
    {
        self.find_decl(&id.0, id.1)
    }

    /// What holds after an entry that stands for the new declaration of
    /// `name` in `scope` was appended to that scope.
    proof fn lemma_entry_added(
        before: SymbolTable,
        mid: SymbolTable,
        after: SymbolTable,
        name: Seq<char>,
        scope: usize,
    )
        requires
            before.wf(),
            mid.scopes == before.scopes,
            mid.decls_wf(),
            !before.declared(name, scope),
            forall|n: Seq<char>, s: usize|
                mid.declared(n, s) <==> (before.declared(n, s) || (n == name && s == scope)),
            after.decls == mid.decls,
            scope < before.scopes@.len(),
            after.scopes@.len() == before.scopes@.len(),
            forall|i: int|
                0 <= i < before.scopes@.len() && i != scope ==> after.scopes@[i] == before.scopes@[i],
            after.scopes@[scope as int].symbols@.len() == before.scopes@[scope as int].symbols@.len()
                + 1,
            forall|e: int|
                0 <= e < before.scopes@[scope as int].symbols@.len() ==> after.scopes@[scope as int].symbols@[e]
                    == before.scopes@[scope as int].symbols@[e],
            after.scopes@[scope as int].symbols@.last().declares() == Some((name, scope)),
            after.scopes@[scope as int].scope_id == before.scopes@[scope as int].scope_id,
            after.scopes@[scope as int].parent_scope == before.scopes@[scope as int].parent_scope,
        ensures
            after.wf(),
            forall|n: Seq<char>, s: usize| after.declared(n, s) == mid.declared(n, s),
    {
        let last = before.scopes@[scope as int].symbols@.len() as int;
        assert forall|n: Seq<char>, s: usize, k: int, j: int|
            after.declared_at(n, s, k, j) == mid.declared_at(n, s, k, j) by {}
        assert forall|n: Seq<char>, s: usize| after.declared(n, s) == mid.declared(n, s) by {
            if mid.declared(n, s) {
                let (k, j) = choose|k: int, j: int| mid.declared_at(n, s, k, j);
                assert(after.declared_at(n, s, k, j));
            }
            if after.declared(n, s) {
                let (k, j) = choose|k: int, j: int| after.declared_at(n, s, k, j);
                assert(mid.declared_at(n, s, k, j));
            }
        }
        assert forall|n: Seq<char>, sc: usize, s: int, e: int|
            before.entry_at(n, sc, s, e) implies after.entry_at(n, sc, s, e) by {}
        assert forall|n: Seq<char>, sc: usize, s: int, e: int|
            after.entry_at(n, sc, s, e) implies before.entry_at(n, sc, s, e) || (s == scope && e
                == last && n == name && sc == scope) by {
            if s != scope {
                assert(after.scopes@[s] == before.scopes@[s]);
            }
        }
        assert(after.entry_at(name, scope, scope as int, last));
        assert forall|n: Seq<char>, sc: usize| #[trigger] after.declared(n, sc) implies exists|
            e: int,
        | after.entry_at(n, sc, sc as int, e) by {
            if before.declared(n, sc) {
                let e = choose|e: int| before.entry_at(n, sc, sc as int, e);
                assert(after.entry_at(n, sc, sc as int, e));
            } else {
                assert(after.entry_at(n, sc, sc as int, last));
            }
        }
        assert forall|n: Seq<char>, sc: usize, s: int, e: int| #[trigger]
            after.entry_at(n, sc, s, e) implies s == sc && after.declared(n, sc) by {
            if before.entry_at(n, sc, s, e) {
                assert(before.declared(n, sc));
            }
        }
        assert forall|n: Seq<char>, sc: usize, s: int, e1: int, e2: int|
            #![trigger after.entry_at(n, sc, s, e1), after.entry_at(n, sc, s, e2)]
            after.entry_at(n, sc, s, e1) && after.entry_at(n, sc, s, e2) implies e1 == e2 by {
            if before.entry_at(n, sc, s, e1) && before.entry_at(n, sc, s, e2) {
            } else if before.entry_at(n, sc, s, e1) {
                assert(before.declared(n, sc));
            } else if before.entry_at(n, sc, s, e2) {
                assert(before.declared(n, sc));
            }
        }
    }

    /// Declares `symbol_decl`: puts it into the index and appends its entry
    /// to its scope, unless its name is declared in its scope already.
    pub fn add_declaration(&mut self, symbol_decl: SymbolDecl) -> (r: Result<
        (),
        SemanticErrorType,
    >)
        requires
            old(self).wf(),
            symbol_decl.scope < old(self).scopes@.len(),
        ensures
            final(self).wf(),
            r is Err <==> old(self).declared(symbol_decl.name@, symbol_decl.scope),
            r matches Err(e) ==> *final(self) == *old(self) && (
            e matches SemanticErrorType::DuplicateDeclaration(m) && m@ == duplicate_message(
                symbol_decl.name@,
                symbol_decl.scope as nat,
            )),
            r is Ok ==> final(self).holds(symbol_decl),
            r is Ok ==> forall|d: SymbolDecl| old(self).holds(d) ==> final(self).holds(d),
            r is Ok ==> forall|name: Seq<char>, scope: usize|
                final(self).declared(name, scope) <==> (old(self).declared(name, scope) || (name
                    == symbol_decl.name@ && scope == symbol_decl.scope)),
            final(self).scopes@.len() == old(self).scopes@.len(),
            forall|i: int|
                0 <= i < old(self).scopes@.len() ==> (#[trigger] final(self).scopes@[i]).parent_scope
                    == old(self).scopes@[i].parent_scope,
            forall|i: int|
                0 <= i < old(self).scopes@.len() && i != symbol_decl.scope ==> final(self).scopes@[i]
                    == old(self).scopes@[i],
            r is Ok ==> final(self).scopes@[symbol_decl.scope as int].symbols@.len() == old(self).scopes@[symbol_decl.scope as int].symbols@.len() + 1,
            r is Ok ==> final(self).scopes@[symbol_decl.scope as int].symbols@.drop_last() == old(self).scopes@[symbol_decl.scope as int].symbols@,
            r is Ok ==> (
            final(self).scopes@[symbol_decl.scope as int].symbols@.last() matches SymbolEntry::Decl(id)
                && id.0@ == symbol_decl.name@ && id.1 == symbol_decl.scope),
            r is Ok ==> old(self)@.declared_with(
                symbol_decl@,
                EntryView::Decl(symbol_decl.name@, symbol_decl.scope),
            ) == Some(final(self)@),
            r is Err ==> old(self)@.declared_with(
                symbol_decl@,
                EntryView::Decl(symbol_decl.name@, symbol_decl.scope),
            ) is None,
    {
        let id = symbol_decl.get_id();
        let scope = symbol_decl.scope;
        let ghost name = symbol_decl.name@;
        self.insert_decl(symbol_decl)?;
        let ghost mid = *self;
        self.scopes[scope].add_declaration(id);
        proof {
            Self::lemma_entry_added(*old(self), mid, *self, name, scope);
            assert(self.scopes@[scope as int].symbols@.drop_last() =~= old(self).scopes@[scope as int].symbols@);
            Self::lemma_entry_view(mid, *self, scope, SymbolEntry::Decl(id));
        }
        Ok(())
    }

    /// Declares the parameter `symbol_decl`: puts it into the index and
    /// appends its entry to its scope, unless its name is declared in its
    /// scope already.
    pub fn add_parameter(&mut self, symbol_decl: SymbolDecl) -> (r: Result<(), SemanticErrorType>)
        requires
            old(self).wf(),
            symbol_decl.scope < old(self).scopes@.len(),
        ensures
            final(self).wf(),
            r is Err <==> old(self).declared(symbol_decl.name@, symbol_decl.scope),
            r matches Err(e) ==> *final(self) == *old(self) && (
            e matches SemanticErrorType::DuplicateDeclaration(m) && m@ == duplicate_message(
                symbol_decl.name@,
                symbol_decl.scope as nat,
            )),
            r is Ok ==> final(self).holds(symbol_decl),
            r is Ok ==> forall|d: SymbolDecl| old(self).holds(d) ==> final(self).holds(d),
            r is Ok ==> forall|name: Seq<char>, scope: usize|
                final(self).declared(name, scope) <==> (old(self).declared(name, scope) || (name
                    == symbol_decl.name@ && scope == symbol_decl.scope)),
            final(self).scopes@.len() == old(self).scopes@.len(),
            forall|i: int|
                0 <= i < old(self).scopes@.len() ==> (#[trigger] final(self).scopes@[i]).parent_scope
                    == old(self).scopes@[i].parent_scope,
            forall|i: int|
                0 <= i < old(self).scopes@.len() && i != symbol_decl.scope ==> final(self).scopes@[i]
                    == old(self).scopes@[i],
            r is Ok ==> final(self).scopes@[symbol_decl.scope as int].symbols@.len() == old(self).scopes@[symbol_decl.scope as int].symbols@.len() + 1,
            r is Ok ==> final(self).scopes@[symbol_decl.scope as int].symbols@.drop_last() == old(self).scopes@[symbol_decl.scope as int].symbols@,
            r is Ok ==> (
            final(self).scopes@[symbol_decl.scope as int].symbols@.last() matches SymbolEntry::Parameter(id)
                && id.0@ == symbol_decl.name@ && id.1 == symbol_decl.scope),
            r is Ok ==> old(self)@.declared_with(
                symbol_decl@,
                EntryView::Parameter(symbol_decl.name@, symbol_decl.scope),
            ) == Some(final(self)@),
            r is Err ==> old(self)@.declared_with(
                symbol_decl@,
                EntryView::Parameter(symbol_decl.name@, symbol_decl.scope),
            ) is None,
    {
        let id = symbol_decl.get_id();
        let scope = symbol_decl.scope;
        let ghost name = symbol_decl.name@;
        self.insert_decl(symbol_decl)?;
        let ghost mid = *self;
        self.scopes[scope].add_parameter(id);
        proof {
            Self::lemma_entry_added(*old(self), mid, *self, name, scope);
            assert(self.scopes@[scope as int].symbols@.drop_last() =~= old(self).scopes@[scope as int].symbols@);
            Self::lemma_entry_view(mid, *self, scope, SymbolEntry::Parameter(id));
        }
        Ok(())
    }

    /// What holds after an entry that stands for no declaration was
    /// appended to scope `scope`.
    proof fn lemma_statement_added(before: SymbolTable, after: SymbolTable, scope: usize)
        requires
            before.wf(),
            after.decls == before.decls,
            scope < before.scopes@.len(),
            after.scopes@.len() == before.scopes@.len(),
            forall|i: int|
                0 <= i < before.scopes@.len() && i != scope ==> after.scopes@[i] == before.scopes@[i],
            after.scopes@[scope as int].symbols@.len() == before.scopes@[scope as int].symbols@.len()
                + 1,
            forall|e: int|
                0 <= e < before.scopes@[scope as int].symbols@.len() ==> after.scopes@[scope as int].symbols@[e]
                    == before.scopes@[scope as int].symbols@[e],
            after.scopes@[scope as int].symbols@.last().declares() is None,
            after.scopes@[scope as int].scope_id == before.scopes@[scope as int].scope_id,
            after.scopes@[scope as int].parent_scope == before.scopes@[scope as int].parent_scope,
        ensures
            after.wf(),
    {
        assert forall|n: Seq<char>, s: usize, k: int, j: int|
            after.declared_at(n, s, k, j) == before.declared_at(n, s, k, j) by {}
        assert forall|n: Seq<char>, s: usize| after.declared(n, s) == before.declared(n, s) by {
            if before.declared(n, s) {
                let (k, j) = choose|k: int, j: int| before.declared_at(n, s, k, j);
                assert(after.declared_at(n, s, k, j));
            }
            if after.declared(n, s) {
                let (k, j) = choose|k: int, j: int| after.declared_at(n, s, k, j);
                assert(before.declared_at(n, s, k, j));
            }
        }
        assert forall|n: Seq<char>, sc: usize, s: int, e: int|
            after.entry_at(n, sc, s, e) == before.entry_at(n, sc, s, e) by {
            if 0 <= s < before.scopes@.len() && s != scope {
                assert(after.scopes@[s] == before.scopes@[s]);
            }
        }
        assert forall|n: Seq<char>, sc: usize| #[trigger] after.declared(n, sc) implies exists|
            e: int,
        | after.entry_at(n, sc, sc as int, e) by {
            let e = choose|e: int| before.entry_at(n, sc, sc as int, e);
            assert(after.entry_at(n, sc, sc as int, e));
        }
    }

    /// The view of a table after an entry was appended to a scope.
    proof fn lemma_entry_view(before: SymbolTable, after: SymbolTable, scope: usize, entry: SymbolEntry)
        requires
            scope < before.scopes@.len(),
            after.decls == before.decls,
            after.scopes@.len() == before.scopes@.len(),
            forall|i: int|
                0 <= i < before.scopes@.len() && i != scope ==> after.scopes@[i] == before.scopes@[i],
            after.scopes@[scope as int].symbols@ == before.scopes@[scope as int].symbols@.push(entry),
            after.scopes@[scope as int].scope_type == before.scopes@[scope as int].scope_type,
            after.scopes@[scope as int].scope_id == before.scopes@[scope as int].scope_id,
            after.scopes@[scope as int].parent_scope == before.scopes@[scope as int].parent_scope,
        ensures
            after@ == before@.with_entry(scope, entry@),
    {
        assert(after.scopes@[scope as int]@.symbols =~= before.scopes@[scope as int]@.symbols.push(
            entry@,
        ));
        assert(after@.scopes =~= before@.with_entry(scope, entry@).scopes);
    }

    /// Appends `entry`, which stands for no declaration, to scope `scope`.
    fn push_statement(&mut self, entry: SymbolEntry, scope: usize)
        requires
            old(self).wf(),
            scope < old(self).scopes@.len(),
            entry.declares() is None,
        ensures
            final(self)@ == old(self)@.with_entry(scope, entry@),
            final(self).wf(),
            final(self).decls == old(self).decls,
            final(self).scopes@.len() == old(self).scopes@.len(),
            forall|i: int|
                0 <= i < old(self).scopes@.len() && i != scope ==> final(self).scopes@[i] == old(self).scopes@[i],
            final(self).scopes@[scope as int].symbols@ == old(self).scopes@[scope as int].symbols@.push(
                entry,
            ),
            final(self).scopes@[scope as int].scope_type == old(self).scopes@[scope as int].scope_type,
            final(self).scopes@[scope as int].scope_id == old(self).scopes@[scope as int].scope_id,
            final(self).scopes@[scope as int].parent_scope == old(self).scopes@[scope as int].parent_scope,
    {
        self.scopes[scope].symbols.push(entry);
        proof {
            Self::lemma_statement_added(*old(self), *self, scope);
            Self::lemma_entry_view(*old(self), *self, scope, entry);
        }
    }

    /// Appends the expression `tree` to scope `scope` as a statement of its
    /// own.
    pub fn add_type_tree(&mut self, tree: StatementTree, scope: usize)
        requires
            old(self).wf(),
            scope < old(self).scopes@.len(),
        ensures
            final(self).wf(),
            final(self).decls == old(self).decls,
            final(self).scopes@.len() == old(self).scopes@.len(),
            forall|i: int|
                0 <= i < old(self).scopes@.len() && i != scope ==> final(self).scopes@[i] == old(self).scopes@[i],
            final(self).scopes@[scope as int].symbols@ == old(self).scopes@[scope as int].symbols@.push(
                SymbolEntry::StatementTree(tree),
            ),
            final(self)@ == old(self)@.with_entry(scope, EntryView::StatementTree(tree_view(tree))),
            final(self).scopes@[scope as int].parent_scope == old(self).scopes@[scope as int].parent_scope,
    {
        self.push_statement(SymbolEntry::StatementTree(tree), scope);
    }

    /// Appends to scope `scope` the assignment of `assignment` to the
    /// variable `var`, or to its element `index`.
    pub fn add_assignment(
        &mut self,
        var: SymbolDecl,
        index: Option<StatementTree>,
        assignment: StatementTree,
        scope: usize,
    )
        requires
            old(self).wf(),
            scope < old(self).scopes@.len(),
        ensures
            final(self).wf(),
            final(self).decls == old(self).decls,
            final(self).scopes@.len() == old(self).scopes@.len(),
            forall|i: int|
                0 <= i < old(self).scopes@.len() && i != scope ==> final(self).scopes@[i] == old(self).scopes@[i],
            final(self).scopes@[scope as int].symbols@.len() == old(self).scopes@[scope as int].symbols@.len()
                + 1,
            final(self).scopes@[scope as int].symbols@.drop_last() == old(self).scopes@[scope as int].symbols@,
            final(self).scopes@[scope as int].symbols@.last() matches SymbolEntry::Assignment(info)
                && info.var.0@ == var.name@ && info.var.1 == var.scope && info.index == index
                && info.assignment == assignment,
            final(self)@ == old(self)@.with_entry(
                scope,
                EntryView::Assignment(
                    var.name@,
                    var.scope,
                    tree_option_view(index),
                    tree_view(assignment),
                ),
            ),
            final(self).scopes@[scope as int].parent_scope == old(self).scopes@[scope as int].parent_scope,
    {
        let info = AssignmentInfo { var: var.get_id(), index, assignment };
        self.push_statement(SymbolEntry::Assignment(info), scope);
        assert(self.scopes@[scope as int].symbols@.drop_last() =~= old(self).scopes@[scope as int].symbols@);
    }

    /// Appends the conditional statement `statement` to scope `curr_scope`.
    pub fn add_conditional_statement(&mut self, statement: ConditionalStatement, curr_scope: usize)
        requires
            old(self).wf(),
            curr_scope < old(self).scopes@.len(),
        ensures
            final(self).wf(),
            final(self).decls == old(self).decls,
            final(self).scopes@.len() == old(self).scopes@.len(),
            forall|i: int|
                0 <= i < old(self).scopes@.len() && i != curr_scope ==> final(self).scopes@[i]
                    == old(self).scopes@[i],
            final(self).scopes@[curr_scope as int].symbols@ == old(self).scopes@[curr_scope as int].symbols@.push(SymbolEntry::ConditionalStatement(statement)),
            final(self)@ == old(self)@.with_entry(
                curr_scope,
                EntryView::ConditionalStatement(
                    statement.statement_type,
                    tree_option_view(statement.condition),
                    statement.body_scope,
                ),
            ),
            final(self).scopes@[curr_scope as int].parent_scope == old(self).scopes@[curr_scope as int].parent_scope,
    {
        self.push_statement(SymbolEntry::ConditionalStatement(statement), curr_scope);
    }

    /// Appends the built-in statement `func` to scope `curr_scope`.
    pub fn add_builtin_func(&mut self, func: BuiltInFunc, curr_scope: usize)
        requires
            old(self).wf(),
            curr_scope < old(self).scopes@.len(),
        ensures
            final(self).wf(),
            final(self).decls == old(self).decls,
            final(self).scopes@.len() == old(self).scopes@.len(),
            forall|i: int|
                0 <= i < old(self).scopes@.len() && i != curr_scope ==> final(self).scopes@[i]
                    == old(self).scopes@[i],
            final(self).scopes@[curr_scope as int].symbols@ == old(self).scopes@[curr_scope as int].symbols@.push(SymbolEntry::BuiltInFunction(func)),
            final(self)@ == old(self)@.with_entry(
                curr_scope,
                EntryView::BuiltInFunction(func.func_type, tree_view(func.statement)),
            ),
            final(self).scopes@[curr_scope as int].parent_scope == old(self).scopes@[curr_scope as int].parent_scope,
    {
        self.push_statement(SymbolEntry::BuiltInFunction(func), curr_scope);
    }

    /// Names that precede their successors precede all names after them.
    proof fn lemma_names_sorted(self, upto: int)
        requires
            0 <= upto <= self.decls@.len(),
            forall|k: int|
                0 <= k && k + 1 < upto ==> lex_lt(
                    (#[trigger] self.decls@[k]).0@,
                    self.decls@[k + 1].0@,
                ),
        ensures
            forall|k1: int, k2: int|
                0 <= k1 < k2 < upto ==> lex_lt(
                    (#[trigger] self.decls@[k1]).0@,
                    (#[trigger] self.decls@[k2]).0@,
                ),
        decreases upto,
    {
        if upto >= 2 {
            self.lemma_names_sorted(upto - 1);
            assert forall|k1: int, k2: int| 0 <= k1 < k2 < upto implies lex_lt(
                (#[trigger] self.decls@[k1]).0@,
                (#[trigger] self.decls@[k2]).0@,
            ) by {
                if k2 == upto - 1 && k1 < upto - 2 {
                    assert(lex_lt(self.decls@[k1].0@, self.decls@[upto - 2].0@));
                    assert(lex_lt(self.decls@[upto - 2].0@, self.decls@[upto - 2 + 1].0@));
                    lemma_lex_lt_transitive(
                        self.decls@[k1].0@,
                        self.decls@[upto - 2].0@,
                        self.decls@[k2].0@,
                    );
                } else if k2 == upto - 1 {
                    assert(lex_lt(self.decls@[k1].0@, self.decls@[k1 + 1].0@));
                }
            }
        }
    }

    /// Whether the declarations of list `k` lie under its name, in scopes of
    /// the table, sorted by scope.
    pub open spec fn list_wf(self, k: int) -> bool {
        &&& self.decls@[k].1@.len() > 0
        &&& forall|j: int|
            0 <= j < self.decls@[k].1@.len() ==> (#[trigger] self.decls@[k].1@[j]).name@
                == self.decls@[k].0@ && self.decls@[k].1@[j].scope < self.scopes@.len()
        &&& forall|j1: int, j2: int|
            0 <= j1 < j2 < self.decls@[k].1@.len() ==> (#[trigger] self.decls@[k].1@[j1]).scope < (
            #[trigger] self.decls@[k].1@[j2]).scope
    }

    /// Whether list `k` of the index is in order.
    fn check_list(&self, k: usize) -> (r: bool)
        requires
            k < self.decls@.len(),
        ensures
            r == self.list_wf(k as int),
    {
        let list = &self.decls[k].1;
        if list.len() == 0 {
            return false;
        }
        let mut j: usize = 0;
        while j < list.len()
            invariant
                0 <= j <= list@.len(),
                k < self.decls@.len(),
                *list == self.decls@[k as int].1,
                forall|i: int|
                    0 <= i < j ==> (#[trigger] list@[i]).name@ == self.decls@[k as int].0@
                        && list@[i].scope < self.scopes@.len(),
                forall|i1: int, i2: int|
                    0 <= i1 < i2 < j ==> (#[trigger] list@[i1]).scope < (#[trigger] list@[i2]).scope,
            decreases list@.len() - j,
        {
            if !(list[j].name == self.decls[k].0) || list[j].scope >= self.scopes.len() {
                return false;
            }
            if j > 0 && list[j - 1].scope >= list[j].scope {
                return false;
            }
            proof {
                assert forall|i1: int, i2: int| 0 <= i1 < i2 < j + 1 implies (
                #[trigger] list@[i1]).scope < (#[trigger] list@[i2]).scope by {
                    if i2 == j && i1 < j - 1 {
                        assert(list@[i1].scope < list@[j - 1].scope);
                    }
                }
            }
            j += 1;
        }
        true
    }

    /// Whether the scopes form a tree and the index of declarations is in
    /// order.
    pub fn is_valid(&self) -> (r: bool)
        ensures
            r == (self.scopes_wf() && self.decls_wf()),
    {
        if self.scopes.len() == 0 || self.scopes[0].parent_scope != 0 {
            return false;
        }
        let mut i: usize = 0;
        while i < self.scopes.len()
            invariant
                0 <= i <= self.scopes@.len(),
                self.scopes@.len() >= 1,
                self.scopes@[0].parent_scope == 0,
                forall|j: int| 0 < j < i ==> (#[trigger] self.scopes@[j]).parent_scope < j,
                forall|j: int| 0 <= j < i ==> (#[trigger] self.scopes@[j]).scope_id == j,
            decreases self.scopes@.len() - i,
        {
            if self.scopes[i].scope_id != i || (i > 0 && self.scopes[i].parent_scope >= i) {
                return false;
            }
            i += 1;
        }
        let mut k: usize = 0;
        while k < self.decls.len()
            invariant
                0 <= k <= self.decls@.len(),
                self.scopes_wf(),
                forall|i: int| 0 <= i < k ==> self.list_wf(i),
                forall|i: int|
                    0 <= i && i + 1 < k ==> lex_lt(
                        (#[trigger] self.decls@[i]).0@,
                        self.decls@[i + 1].0@,
                    ),
            decreases self.decls@.len() - k,
        {
            if !self.check_list(k) {
                return false;
            }
            if k > 0 && !string_lt(self.decls[k - 1].0.as_str(), self.decls[k].0.as_str()) {
                assert(!lex_lt(self.decls@[k - 1].0@, self.decls@[k as int].0@));
                return false;
            }
            k += 1;
        }
        proof {
            self.lemma_names_sorted(self.decls@.len() as int);
            assert forall|k: int, j: int|
                0 <= k < self.decls@.len() && 0 <= j < self.decls@[k].1@.len() implies {
                &&& (#[trigger] self.decls@[k].1@[j]).name@ == self.decls@[k].0@
                &&& self.decls@[k].1@[j].scope < self.scopes@.len()
            } by {
                assert(self.list_wf(k));
            }
            assert forall|k: int, j1: int, j2: int|
                0 <= k < self.decls@.len() && 0 <= j1 < j2 < self.decls@[k].1@.len() implies (
            #[trigger] self.decls@[k].1@[j1]).scope < (#[trigger] self.decls@[k].1@[j2]).scope by {
                assert(self.list_wf(k));
            }
            assert forall|k: int| 0 <= k < self.decls@.len() implies (
            #[trigger] self.decls@[k]).1@.len() > 0 by {
                assert(self.list_wf(k));
            }
        }
        true
    }

    /// Every declaration has one entry exactly, which lies in the scope of
    /// the declaration, and no other declaration has its name and scope.
    pub proof fn lemma_one_entry_per_declaration(self, d: SymbolDecl)
        requires
            self.wf(),
            self.holds(d),
        ensures
            exists|e: int| self.entry_at(d.name@, d.scope, d.scope as int, e),
            forall|s: int, e1: int, e2: int|
                self.entry_at(d.name@, d.scope, s, e1) && self.entry_at(d.name@, d.scope, s, e2)
                    ==> e1 == e2,
            forall|s: int, e: int| self.entry_at(d.name@, d.scope, s, e) ==> s == d.scope,
            forall|other: SymbolDecl|
                self.holds(other) && other.name@ == d.name@ && other.scope == d.scope ==> other
                    == d,
    {
        let (k, j) = choose|k: int, j: int|
            0 <= k < self.decls@.len() && 0 <= j < self.decls@[k].1@.len()
                && #[trigger] self.decls@[k].1@[j] == d;
        assert(self.declared_at(d.name@, d.scope, k, j));
        assert(self.declared(d.name@, d.scope));
        assert forall|other: SymbolDecl|
            self.holds(other) && other.name@ == d.name@ && other.scope == d.scope implies other
            == d by {
            self.lemma_holds_unique(other, d);
        }
    }

    /// Whether scope `outer` is scope `inner` or lies around it.
    pub open spec fn encloses(self, outer: usize, inner: usize) -> bool
        decreases inner,
    {
        inner < self.scopes@.len() && (outer == inner || (inner != 0 && self.parent_of(inner) < inner
            && self.encloses(outer, self.parent_of(inner))))
    }

    /// A use of a name refers to the nearest scope, from the scope of the
    /// use outward, that declares the name: that scope is the scope of the
    /// use or lies around it, and every other such scope that declares the
    /// name lies around it. A use refers to nothing only where no such
    /// scope declares the name.
    pub proof fn lemma_resolve_nearest(self, name: Seq<char>, scope: usize)
        requires
            self.scopes_wf(),
            scope < self.scopes@.len(),
        ensures
            match self.resolve(name, scope) {
                Some(s) => s <= scope && self.declared(name, s) && self.encloses(s, scope)
                    && forall|t: usize|
                    self.encloses(t, scope) && self.declared(name, t) ==> self.encloses(t, s),
                None => forall|t: usize| self.encloses(t, scope) ==> !self.declared(name, t),
            },
        decreases scope,
    {
        if !self.declared(name, scope) && scope != 0 {
            let parent = self.parent_of(scope);
            assert(self.scopes@[scope as int].parent_scope < scope);
            self.lemma_resolve_nearest(name, parent);
        }
    }

    /// In a sorted index the binary search's bound is the place of the
    /// name.
    pub proof fn lemma_name_bound(decls: Seq<DeclList>, name: Seq<char>, low: int)
        requires
            0 <= low <= decls.len(),
            forall|k: int| 0 <= k < low ==> lex_lt(#[trigger] decls[k].0, name),
            forall|k: int| low <= k < decls.len() ==> !lex_lt(#[trigger] decls[k].0, name),
        ensures
            name_bound(decls, name) == low,
        decreases decls.len(),
    {
        if decls.len() > 0 {
            if lex_lt(decls.last().0, name) {
                if low < decls.len() {
                    assert(!lex_lt(decls[decls.len() - 1].0, name));
                }
            } else {
                if low == decls.len() {
                    assert(lex_lt(decls[decls.len() - 1].0, name));
                }
                let rest = decls.drop_last();
                assert forall|k: int| 0 <= k < low implies lex_lt(#[trigger] rest[k].0, name) by {
                    assert(rest[k] == decls[k]);
                }
                assert forall|k: int| low <= k < rest.len() implies !lex_lt(
                    #[trigger] rest[k].0,
                    name,
                ) by {
                    assert(rest[k] == decls[k]);
                }
                Self::lemma_name_bound(rest, name, low);
            }
        }
    }

    /// In a list sorted by scope the binary search's bound is the place of
    /// the scope.
    pub proof fn lemma_scope_bound(list: Seq<DeclView>, scope: usize, low: int)
        requires
            0 <= low <= list.len(),
            forall|j: int| 0 <= j < low ==> (#[trigger] list[j]).scope < scope,
            forall|j: int| low <= j < list.len() ==> (#[trigger] list[j]).scope >= scope,
        ensures
            scope_bound(list, scope) == low,
        decreases list.len(),
    {
        if list.len() > 0 {
            if list.last().scope < scope {
                if low < list.len() {
                    assert(list[list.len() - 1].scope >= scope);
                }
            } else {
                if low == list.len() {
                    assert(list[list.len() - 1].scope < scope);
                }
                let rest = list.drop_last();
                assert forall|j: int| 0 <= j < low implies (#[trigger] rest[j]).scope < scope by {
                    assert(rest[j] == list[j]);
                }
                assert forall|j: int| low <= j < rest.len() implies (#[trigger] rest[j]).scope
                    >= scope by {
                    assert(rest[j] == list[j]);
                }
                Self::lemma_scope_bound(rest, scope, low);
            }
        }
    }

    /// In a well-formed table the list at place `index` is the list of its
    /// name.
    pub proof fn lemma_list_of_name(self, index: int)
        requires
            self.decls_wf(),
            0 <= index < self.decls@.len(),
        ensures
            name_bound(self@.decls, self.decls@[index].0@) == index,
            decls_of_name(self@.decls, self.decls@[index].0@) == list_view(self.decls@[index].1@),
    {
        let decls = self@.decls;
        let name = self.decls@[index].0@;
        lemma_lex_lt_irreflexive(name);
        assert forall|k: int| 0 <= k < index implies lex_lt(#[trigger] decls[k].0, name) by {
            assert(lex_lt(self.decls@[k].0@, self.decls@[index].0@));
        }
        assert forall|k: int| index <= k < decls.len() implies !lex_lt(#[trigger] decls[k].0, name) by {
            if k > index {
                assert(lex_lt(self.decls@[index].0@, self.decls@[k].0@));
                crate::text::lemma_lex_lt_asymmetric(name, decls[k].0);
            }
        }
        Self::lemma_name_bound(decls, name, index);
    }

    /// In a well-formed table the declaration at place `j` of list `k` is
    /// the declaration of its scope.
    pub proof fn lemma_decl_of_scope(self, k: int, j: int)
        requires
            self.decls_wf(),
            0 <= k < self.decls@.len(),
            0 <= j < self.decls@[k].1@.len(),
        ensures
            decl_of_scope(list_view(self.decls@[k].1@), self.decls@[k].1@[j].scope) == Some(
                self.decls@[k].1@[j]@,
            ),
    {
        let list = list_view(self.decls@[k].1@);
        let scope = self.decls@[k].1@[j].scope;
        assert forall|i: int| 0 <= i < j implies (#[trigger] list[i]).scope < scope by {
            assert(self.decls@[k].1@[i].scope < self.decls@[k].1@[j].scope);
        }
        assert forall|i: int| j <= i < list.len() implies (#[trigger] list[i]).scope >= scope by {
            if i > j {
                assert(self.decls@[k].1@[j].scope < self.decls@[k].1@[i].scope);
            }
        }
        Self::lemma_scope_bound(list, scope, j);
    }

    /// A list whose scopes all lie beyond `scope` holds no declaration that
    /// a use in `scope` refers to.
    pub proof fn lemma_nearest_none(self, list: Seq<DeclView>, scope: usize)
        requires
            self.scopes_wf(),
            forall|j: int| 0 <= j < list.len() ==> (#[trigger] list[j]).scope > scope,
        ensures
            self@.nearest(list, scope) is None,
        decreases scope,
    {
        Self::lemma_scope_bound(list, scope, 0);
        if scope < self.scopes@.len() && scope != 0 {
            let parent = self.scopes@[scope as int].parent_scope;
            assert(self@.scopes[scope as int].parent_scope == parent);
            if parent < scope {
                self.lemma_nearest_none(list, parent);
            }
        }
    }

    /// The number of scopes.
    pub fn get_scope_count(&self) -> (r: usize)
        ensures
            r == self.scopes@.len(),
    {
        self.scopes.len()
    }
}

} // verus!
