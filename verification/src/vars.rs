//! Variables in three scopes, system, project and session, where session
//! overrides project, which overrides system; and `{var:SCOPE.KEY}`
//! templates filled in from them.
use vstd::prelude::*;
use serde_json::Value;
use crate::table::{NamedTable, unique_names};
use crate::text::{chars_of, string_of};
use crate::tools::{replace_matches, replaced, char_at};
use crate::text::{contains_seq, occurs_at};

verus! {

broadcast use vstd::string::group_string_axioms;

/// Scope of a variable.
#[derive(Debug, Clone, Copy, PartialEq, Eq, Hash, Structural)]
pub enum VariableScope {
    System,
    Project,
    Session,
}

/// The text a variable's value stands for in a template: a JSON string
/// stands for its contents, any other value for its JSON rendering.
pub uninterp spec fn json_display(v: Value) -> Seq<char>;

/// The text of a variable's value: for a JSON string its contents
/// (serde_json's `Value::as_str`), otherwise the value as serde_json
/// renders it (`Display`). Only that the text is a function of the value is
/// claimed.
#[verifier::external_body]
fn value_text(v: &Value) -> (r: String)
    ensures
        r@ == json_display(*v),
{
    match v.as_str() {
        Some(s) => s.to_string(),
        None => v.to_string(),
    }
}

/// Three-level variable store: system, project and session variables.
pub struct VariableStore {
    system: NamedTable<Value>,
    project: NamedTable<Value>,
    session: NamedTable<Value>,
}

/// The first of the three that is present.
pub open spec fn first_present<V>(a: Option<V>, b: Option<V>, c: Option<V>) -> Option<V> {
    match a {
        Some(v) => Some(v),
        None => match b {
            Some(v) => Some(v),
            None => c,
        },
    }
}

/// The name a scope has in templates.
pub open spec fn scope_name(scope: VariableScope) -> Seq<char> {
    match scope {
        VariableScope::System => "system"@,
        VariableScope::Project => "project"@,
        VariableScope::Session => "session"@,
    }
}

/// The template for a variable: `{var:`, the scope's name, a dot, the key
/// and `}`.
pub open spec fn template(scope: Seq<char>, key: Seq<char>) -> Seq<char> {
    "{var:"@ + scope + "."@ + key + "}"@
}

/// `s` with every template of the given variables of one scope replaced
/// by the variable's text, one variable after the other in table order.
pub open spec fn substitute_scope(s: Seq<char>, scope: Seq<char>, keys: Seq<Seq<char>>, values: Seq<Value>) -> Seq<char>
    decreases keys.len(),
{
    if keys.len() == 0 {
        s
    } else {
        replaced(
            substitute_scope(s, scope, keys.drop_last(), values.drop_last()),
            template(scope, keys.last()),
            json_display(values.last()),
            0,
            usize::MAX as nat,
        )
    }
}

impl VariableStore {
    /// The variables of one scope.
    pub closed spec fn table(&self, scope: VariableScope) -> NamedTable<Value> {
        match scope {
            VariableScope::System => self.system,
            VariableScope::Project => self.project,
            VariableScope::Session => self.session,
        }
    }

    /// The value a key resolves to: the session's, else the project's,
    /// else the system's.
    pub open spec fn resolved(&self, key: Seq<char>) -> Option<Value> {
        first_present(
            self.table(VariableScope::Session).lookup(key),
            self.table(VariableScope::Project).lookup(key),
            self.table(VariableScope::System).lookup(key),
        )
    }

    /// `input` with the templates of the variables filled in: session
    /// variables first, then project, then system ones, each scope in its
    /// table's order.
    pub open spec fn substituted(&self, input: Seq<char>) -> Seq<char> {
        substitute_scope(
            substitute_scope(
                substitute_scope(
                    input,
                    scope_name(VariableScope::Session),
                    self.table(VariableScope::Session).keys(),
                    self.table(VariableScope::Session).values(),
                ),
                scope_name(VariableScope::Project),
                self.table(VariableScope::Project).keys(),
                self.table(VariableScope::Project).values(),
            ),
            scope_name(VariableScope::System),
            self.table(VariableScope::System).keys(),
            self.table(VariableScope::System).values(),
        )
    }

    /// A store with no variables.
    pub fn new() -> (r: VariableStore)
        ensures
            r.table(VariableScope::System).keys().len() == 0,
            r.table(VariableScope::Project).keys().len() == 0,
            r.table(VariableScope::Session).keys().len() == 0,
    {
        VariableStore { system: NamedTable::new(), project: NamedTable::new(), session: NamedTable::new() }
    }

    /// The value of a variable, with scope precedence: session, then
    /// project, then system.
    pub fn get(&self, key: &str) -> (r: Option<&Value>)
        ensures
            match r {
                Some(v) => self.resolved(key@) == Some(*v),
                None => self.resolved(key@) is None,
            },
    {
        match self.session.get(key) {
            Some(v) => Some(v),
            None => match self.project.get(key) {
                Some(v) => Some(v),
                None => self.system.get(key),
            },
        }
    }

    /// The value of a variable in one scope only.
    pub fn get_scoped(&self, scope: VariableScope, key: &str) -> (r: Option<&Value>)
        ensures
            match r {
                Some(v) => self.table(scope).lookup(key@) == Some(*v),
                None => self.table(scope).lookup(key@) is None,
            },
    {
        match scope {
            VariableScope::System => self.system.get(key),
            VariableScope::Project => self.project.get(key),
            VariableScope::Session => self.session.get(key),
        }
    }

    /// Sets a variable in one scope. A key already in that scope keeps its
    /// place and takes the new value; a new key goes last. The key then
    /// resolves to `value` unless a scope that overrides this one has it.
    pub fn set_scoped(&mut self, scope: VariableScope, key: &str, value: Value)
        ensures
            final(self).table(scope).lookup(key@) == Some(value),
            forall|other: Seq<char>| other != key@ ==> #[trigger] final(self).table(scope).lookup(other)
                == old(self).table(scope).lookup(other),
            match old(self).table(scope).index_of(key@) {
                Some(i) => final(self).table(scope).keys() == old(self).table(scope).keys()
                    && final(self).table(scope).values() == old(self).table(scope).values().update(i, value),
                None => final(self).table(scope).keys() == old(self).table(scope).keys().push(key@)
                    && final(self).table(scope).values() == old(self).table(scope).values().push(value),
            },
            forall|s: VariableScope| s != scope ==> #[trigger] final(self).table(s) == old(self).table(s),
            final(self).resolved(key@) == match scope {
                VariableScope::Session => Some(value),
                VariableScope::Project => first_present(
                    old(self).table(VariableScope::Session).lookup(key@),
                    Some(value),
                    None,
                ),
                VariableScope::System => first_present(
                    old(self).table(VariableScope::Session).lookup(key@),
                    old(self).table(VariableScope::Project).lookup(key@),
                    Some(value),
                ),
            },
            forall|other: Seq<char>| other != key@ ==> #[trigger] final(self).resolved(other) == old(self).resolved(other),
    {
        match scope {
            VariableScope::System => {
                self.system.insert(key, value);
            },
            VariableScope::Project => {
                self.project.insert(key, value);
            },
            VariableScope::Session => {
                self.session.insert(key, value);
            },
        }
        assert forall|other: Seq<char>| other != key@ implies #[trigger] self.resolved(other) == old(self).resolved(other) by {
            assert(self.table(scope).lookup(other) == old(self).table(scope).lookup(other));
        }
    }

    /// Sets a session variable, which then resolves to `value`.
    pub fn set(&mut self, key: &str, value: Value)
        ensures
            final(self).table(VariableScope::Session).lookup(key@) == Some(value),
            forall|other: Seq<char>| other != key@ ==> #[trigger] final(self).table(VariableScope::Session).lookup(other)
                == old(self).table(VariableScope::Session).lookup(other),
            match old(self).table(VariableScope::Session).index_of(key@) {
                Some(i) => final(self).table(VariableScope::Session).keys() == old(self).table(VariableScope::Session).keys()
                    && final(self).table(VariableScope::Session).values() == old(self).table(VariableScope::Session).values().update(i, value),
                None => final(self).table(VariableScope::Session).keys() == old(self).table(VariableScope::Session).keys().push(key@)
                    && final(self).table(VariableScope::Session).values() == old(self).table(VariableScope::Session).values().push(value),
            },
            final(self).table(VariableScope::Project) == old(self).table(VariableScope::Project),
            final(self).table(VariableScope::System) == old(self).table(VariableScope::System),
            final(self).resolved(key@) == Some(value),
    {
        self.set_scoped(VariableScope::Session, key, value);
    }

    /// `s` with the templates of one scope filled in.
    fn substitute_table(s: Vec<char>, scope: &str, table: &NamedTable<Value>) -> (r: Vec<char>)
        ensures
            r@ == substitute_scope(s@, scope@, table.keys(), table.values()),
    {
        proof {
            table.lemma_lengths();
        }
        let mut out = s;
        let mut i: usize = 0;
        let ghost keys = table.keys();
        let ghost values = table.values();
        let ghost start = out@;
        while i < table.len()
            invariant
                i <= keys.len(),
                keys == table.keys(),
                values == table.values(),
                keys.len() == values.len(),
                out@ == substitute_scope(start, scope@, keys.take(i as int), values.take(i as int)),
            decreases keys.len() - i,
        {
            let (key, value) = table.entry(i);
            let mut tpl = "{var:".to_string();
            tpl.append(scope);
            tpl.append(".");
            tpl.append(key);
            tpl.append("}");
            let text = value_text(value);
            let tc = chars_of(tpl.as_str());
            let xc = chars_of(text.as_str());
            proof {
                reveal_strlit("{var:");
                reveal_strlit(".");
                reveal_strlit("}");
                assert(keys.take(i + 1).drop_last() =~= keys.take(i as int));
                assert(values.take(i + 1).drop_last() =~= values.take(i as int));
                assert(tc@ =~= template(scope@, keys[i as int]));
            }
            out = replace_matches(out.as_slice(), tc.as_slice(), xc.as_slice(), usize::MAX);
            i = i + 1;
        }
        proof {
            assert(keys.take(keys.len() as int) =~= keys);
            assert(values.take(values.len() as int) =~= values);
        }
        out
    }

    /// `input` with each `{var:SCOPE.KEY}` template of a variable filled in
    /// with the variable's text: session variables first, then project,
    /// then system ones, each scope in its table's order.
    pub fn substitute(&self, input: &str) -> (r: String)
        ensures
            r@ == self.substituted(input@),
    {
        proof {
            reveal_strlit("session");
            reveal_strlit("project");
            reveal_strlit("system");
        }
        let s = chars_of(input);
        let s = VariableStore::substitute_table(s, "session", &self.session);
        let s = VariableStore::substitute_table(s, "project", &self.project);
        let s = VariableStore::substitute_table(s, "system", &self.system);
        string_of(s.as_slice())
    }
}

/// Declaration of a TOML value of the toml crate.
#[verifier::external_type_specification]
#[verifier::external_body]
pub struct ExTomlValue(toml::Value);

/// Declaration of the toml crate's map of keys to values (its `Table`).
#[verifier::external_type_specification]
#[verifier::external_body]
#[verifier::reject_recursive_types(K)]
#[verifier::reject_recursive_types(V)]
pub struct ExTomlMap<K, V>(toml::map::Map<K, V>);

/// A node of a parsed TOML document: a table of named nodes, or any other
/// value.
pub enum TomlItem {
    Table(Vec<(String, TomlItem)>),
    Value(toml::Value),
}

/// The abstract value of a TOML node.
pub enum TomlNode {
    Table(Seq<(Seq<char>, TomlNode)>),
    Value(toml::Value),
}

/// The abstract value of a TOML node.
pub open spec fn node_view(t: TomlItem) -> TomlNode
    decreases t,
{
    match t {
        TomlItem::Table(items) => TomlNode::Table(items_view(items@)),
        TomlItem::Value(v) => TomlNode::Value(v),
    }
}

/// The abstract value of the named nodes of a table.
pub open spec fn items_view(items: Seq<(String, TomlItem)>) -> Seq<(Seq<char>, TomlNode)>
    decreases items,
{
    if items.len() == 0 {
        Seq::empty()
    } else {
        items_view(items.drop_last()).push((items.last().0@, node_view(items.last().1)))
    }
}

/// The table toml's parser makes of a document.
pub uninterp spec fn toml_table(content: Seq<char>) -> Option<toml::map::Map<String, toml::Value>>;

/// Parses `content` as a TOML document into a table (`str::parse` into
/// `toml::Table`); `None` when it is not valid TOML. Only that the outcome
/// is a function of the text is claimed.
#[verifier::external_body]
fn parse_toml_table(content: &str) -> (r: Option<toml::map::Map<String, toml::Value>>)
    ensures
        r == toml_table(content@),
{
    content.parse::<toml::Table>().ok()
}

/// The named nodes of a TOML table, in the table's order.
pub uninterp spec fn toml_tree(table: toml::map::Map<String, toml::Value>) -> Seq<(Seq<char>, TomlNode)>;

/// The entries of a TOML table in the table's order (sorted by key, as the
/// toml crate's `Map` keeps them), each nested table converted in turn.
/// Only that the result is a function of the table is claimed.
#[verifier::external_body]
fn toml_items(table: toml::map::Map<String, toml::Value>) -> (r: Vec<(String, TomlItem)>)
    ensures
        items_view(r@) == toml_tree(table),
{
    let mut out = Vec::new();
    for (key, value) in table {
        out.push((key, match value {
            toml::Value::Table(sub) => TomlItem::Table(toml_items(sub)),
            other => TomlItem::Value(other),
        }));
    }
    out
}

/// The JSON value serde_json makes of a TOML value, when it can.
pub uninterp spec fn toml_json(v: toml::Value) -> Option<Value>;

/// Converts a TOML value to JSON with `serde_json::to_value`; `None` when
/// the conversion fails. Only that the outcome is a function of the value
/// is claimed.
#[verifier::external_body]
fn json_of_toml(v: &toml::Value) -> (r: Option<Value>)
    ensures
        r == toml_json(*v),
{
    serde_json::to_value(v).ok()
}

/// The dotted key of `key` under `prefix`.
pub open spec fn full_key(prefix: Seq<char>, key: Seq<char>) -> Seq<char> {
    if prefix.len() == 0 {
        key
    } else {
        prefix + "."@ + key
    }
}

/// The leaves of the nodes under `prefix`, in order, each under its dotted
/// key.
pub open spec fn flat_entries(prefix: Seq<char>, items: Seq<(Seq<char>, TomlNode)>) -> Seq<(Seq<char>, toml::Value)>
    decreases items,
{
    if items.len() == 0 {
        Seq::empty()
    } else {
        flat_entries(prefix, items.drop_last()) + node_entries(
            full_key(prefix, items.last().0),
            items.last().1,
        )
    }
}

/// The leaves of one node under its dotted key.
pub open spec fn node_entries(key: Seq<char>, node: TomlNode) -> Seq<(Seq<char>, toml::Value)>
    decreases node,
{
    match node {
        TomlNode::Table(sub) => flat_entries(key, sub),
        TomlNode::Value(v) => seq![(key, v)],
    }
}

/// Position of `k` among `keys`.
pub open spec fn index_in(keys: Seq<Seq<char>>, k: Seq<char>) -> Option<int> {
    if exists|i: int| 0 <= i < keys.len() && keys[i] == k {
        Some(choose|i: int| 0 <= i < keys.len() && keys[i] == k)
    } else {
        None
    }
}

/// Keys and values after putting `v` under `k`: an existing key keeps its
/// place and takes the value, a new one goes last.
pub open spec fn put_kv(kv: (Seq<Seq<char>>, Seq<Value>), k: Seq<char>, v: Value) -> (Seq<Seq<char>>, Seq<Value>) {
    match index_in(kv.0, k) {
        Some(i) => (kv.0, kv.1.update(i, v)),
        None => (kv.0.push(k), kv.1.push(v)),
    }
}

/// Keys and values after putting each leaf, converted to JSON, in order;
/// leaves that do not convert are left out.
pub open spec fn loaded(kv: (Seq<Seq<char>>, Seq<Value>), entries: Seq<(Seq<char>, toml::Value)>) -> (Seq<Seq<char>>, Seq<Value>)
    decreases entries.len(),
{
    if entries.len() == 0 {
        kv
    } else {
        let prev = loaded(kv, entries.drop_last());
        match toml_json(entries.last().1) {
            Some(j) => put_kv(prev, entries.last().0, j),
            None => prev,
        }
    }
}

proof fn lemma_loaded_concat(kv: (Seq<Seq<char>>, Seq<Value>), a: Seq<(Seq<char>, toml::Value)>, b: Seq<(Seq<char>, toml::Value)>)
    ensures
        loaded(kv, a + b) == loaded(loaded(kv, a), b),
    decreases b.len(),
{
    if b.len() == 0 {
        assert(a + b =~= a);
    } else {
        lemma_loaded_concat(kv, a, b.drop_last());
        assert((a + b).drop_last() =~= a + b.drop_last());
        assert((a + b).last() == b.last());
    }
}

/// The keys and values of a table.
pub open spec fn kv_of(t: NamedTable<Value>) -> (Seq<Seq<char>>, Seq<Value>) {
    (t.keys(), t.values())
}

/// `prefix` and `key` joined by a dot, or `key` alone under no prefix.
fn dotted(prefix: &str, key: &str) -> (r: String)
    ensures
        r@ == full_key(prefix@, key@),
{
    proof {
        reveal_strlit(".");
    }
    if prefix.is_empty() {
        key.to_string()
    } else {
        let mut s = prefix.to_string();
        s.append(".");
        s.append(key);
        s
    }
}

/// Puts the leaves of `items` under `prefix` into `table`, converted to
/// JSON (see `loaded`).
fn flatten_into(prefix: &str, items: &Vec<(String, TomlItem)>, table: &mut NamedTable<Value>)
    ensures
        kv_of(*final(table)) == loaded(kv_of(*old(table)), flat_entries(prefix@, items_view(items@))),
    decreases items@,
{
    let ghost start = kv_of(*table);
    let ghost iv = items_view(items@);
    let mut i: usize = 0;
    assert(items@.take(0) =~= Seq::<(String, TomlItem)>::empty());
    while i < items.len()
        invariant
            i <= items@.len(),
            iv == items_view(items@),
            kv_of(*table) == loaded(start, flat_entries(prefix@, items_view(items@.take(i as int)))),
        decreases items@.len() - i,
    {
        let ghost before = kv_of(*table);
        proof {
            assert(items@.take(i + 1).drop_last() =~= items@.take(i as int));
            assert(items@.take(i + 1).last() == items@[i as int]);
        }
        let key = dotted(prefix, items[i].0.as_str());
        match &items[i].1 {
            TomlItem::Table(sub) => {
                proof {
                    assert(decreases_to!(items@ => items@[i as int]));
                }
                flatten_into(key.as_str(), sub, table);
            },
            TomlItem::Value(v) => {
                match json_of_toml(v) {
                    Some(j) => {
                        proof {
                            assert(table.index_of(key@) == index_in(table.keys(), key@));
                        }
                        let _ = table.insert(key.as_str(), j);
                    },
                    None => {},
                }
                proof {
                    let e = seq![(key@, *v)];
                    assert(e.drop_last() =~= Seq::<(Seq<char>, toml::Value)>::empty());
                    assert(loaded(before, e.drop_last()) == before);
                    assert(e.last() == (key@, *v));
                    match toml_json(*v) {
                        Some(j) => {
                            assert(kv_of(*table) == put_kv(before, key@, j));
                        },
                        None => {
                            assert(kv_of(*table) == before);
                        },
                    }
                    assert(loaded(before, e) == kv_of(*table));
                }
            },
        }
        proof {
            let head = flat_entries(prefix@, items_view(items@.take(i as int)));
            let node = node_entries(key@, node_view(items@[i as int].1));
            assert(items_view(items@.take(i + 1)).drop_last() =~= items_view(items@.take(i as int)));
            lemma_loaded_concat(start, head, node);
        }
        i = i + 1;
    }
    assert(items@.take(items@.len() as int) =~= items@);
}

impl VariableStore {
    /// Loads the variables of a TOML document into one scope: each leaf of
    /// the document goes under its dotted key, converted to JSON; nested
    /// tables give longer keys. A text that is not TOML loads nothing.
    pub fn load_scoped(&mut self, scope: VariableScope, content: &str)
        ensures
            match toml_table(content@) {
                Some(t) => kv_of(final(self).table(scope)) == loaded(
                    kv_of(old(self).table(scope)),
                    flat_entries(Seq::empty(), toml_tree(t)),
                ),
                None => final(self).table(scope) == old(self).table(scope),
            },
            forall|s: VariableScope| s != scope ==> #[trigger] final(self).table(s) == old(self).table(s),
    {
        match parse_toml_table(content) {
            Some(t) => {
                let items = toml_items(t);
                proof {
                    reveal_strlit("");
                    assert(""@ =~= Seq::<char>::empty());
                }
                match scope {
                    VariableScope::System => flatten_into("", &items, &mut self.system),
                    VariableScope::Project => flatten_into("", &items, &mut self.project),
                    VariableScope::Session => flatten_into("", &items, &mut self.session),
                }
            },
            None => {},
        }
    }

    /// Loads system variables from the text of their file, when it could be
    /// read.
    pub fn load_system(&mut self, content: Option<&str>)
        ensures
            match content {
                Some(c) => match toml_table(c@) {
                    Some(t) => kv_of(final(self).table(VariableScope::System)) == loaded(
                        kv_of(old(self).table(VariableScope::System)),
                        flat_entries(Seq::empty(), toml_tree(t)),
                    ),
                    None => final(self).table(VariableScope::System) == old(self).table(VariableScope::System),
                },
                None => final(self).table(VariableScope::System) == old(self).table(VariableScope::System),
            },
            final(self).table(VariableScope::Project) == old(self).table(VariableScope::Project),
            final(self).table(VariableScope::Session) == old(self).table(VariableScope::Session),
    {
        match content {
            Some(c) => self.load_scoped(VariableScope::System, c),
            None => {},
        }
    }

    /// Loads project variables from the text of their file, when it could
    /// be read.
    pub fn load_project(&mut self, content: Option<&str>)
        ensures
            match content {
                Some(c) => match toml_table(c@) {
                    Some(t) => kv_of(final(self).table(VariableScope::Project)) == loaded(
                        kv_of(old(self).table(VariableScope::Project)),
                        flat_entries(Seq::empty(), toml_tree(t)),
                    ),
                    None => final(self).table(VariableScope::Project) == old(self).table(VariableScope::Project),
                },
                None => final(self).table(VariableScope::Project) == old(self).table(VariableScope::Project),
            },
            final(self).table(VariableScope::System) == old(self).table(VariableScope::System),
            final(self).table(VariableScope::Session) == old(self).table(VariableScope::Session),
    {
        match content {
            Some(c) => self.load_scoped(VariableScope::Project, c),
            None => {},
        }
    }
}

/// Session variables override project ones, which override system ones:
/// a key resolves to the value of the first scope, in that order, that
/// has it.
pub proof fn law_scope_precedence(store: VariableStore, key: Seq<char>)
    ensures
        store.table(VariableScope::Session).lookup(key) is Some ==> store.resolved(key) == store.table(
            VariableScope::Session,
        ).lookup(key),
        store.table(VariableScope::Session).lookup(key) is None && store.table(VariableScope::Project).lookup(key) is Some
            ==> store.resolved(key) == store.table(VariableScope::Project).lookup(key),
        store.table(VariableScope::Session).lookup(key) is None && store.table(VariableScope::Project).lookup(key) is None
            ==> store.resolved(key) == store.table(VariableScope::System).lookup(key),
{
}

/// Replacing a pattern that does not occur leaves the text as it is.
proof fn lemma_replaced_absent(s: Seq<char>, p: Seq<char>, r: Seq<char>, i: int, n: nat)
    requires
        p.len() > 0,
        0 <= i <= s.len(),
        forall|j: int| i <= j ==> !occurs_at(s, p, j),
    ensures
        replaced(s, p, r, i, n) == s.skip(i),
    decreases s.len() - i,
{
    if i == s.len() {
        assert(char_at(s, i) =~= Seq::<char>::empty());
        assert(replaced(s, p, r, i + 1, n) == Seq::<char>::empty());
        assert(s.skip(i) =~= Seq::<char>::empty());
    } else {
        lemma_replaced_absent(s, p, r, i + 1, n);
        assert(s.skip(i) =~= seq![s[i]] + s.skip(i + 1));
    }
}

/// Replacing a pattern in a text that is exactly the pattern gives the
/// replacement.
proof fn lemma_replaced_whole(p: Seq<char>, r: Seq<char>, n: nat)
    requires
        p.len() > 0,
        n > 0,
    ensures
        replaced(p, p, r, 0, n) == r,
{
    assert(p.subrange(0, p.len() as int) =~= p);
    assert(occurs_at(p, p, 0));
    let m = (n - 1) as nat;
    assert(!occurs_at(p, p, p.len() as int));
    assert(char_at(p, p.len() as int) =~= Seq::<char>::empty());
    assert(replaced(p, p, r, p.len() + 1int, m) == Seq::<char>::empty());
    assert(replaced(p, p, r, p.len() as int, m) =~= Seq::<char>::empty());
    assert(r + Seq::<char>::empty() =~= r);
}

/// A template is never empty.
proof fn lemma_template_nonempty(scope: Seq<char>, key: Seq<char>)
    ensures
        template(scope, key).len() > 0,
{
    reveal_strlit("}");
    assert(("}"@).len() == 1);
}

/// Filling in the templates of one scope leaves a text in which none of
/// them occurs as it is.
proof fn lemma_scope_untouched(s: Seq<char>, scope: Seq<char>, keys: Seq<Seq<char>>, values: Seq<Value>)
    requires
        keys.len() == values.len(),
        forall|j: int| 0 <= j < keys.len() ==> !contains_seq(s, #[trigger] template(scope, keys[j])),
    ensures
        substitute_scope(s, scope, keys, values) == s,
    decreases keys.len(),
{
    if keys.len() > 0 {
        let k = keys.len() - 1;
        assert forall|j: int| 0 <= j < keys.drop_last().len() implies !contains_seq(
            s,
            #[trigger] template(scope, keys.drop_last()[j]),
        ) by {
            assert(keys.drop_last()[j] == keys[j]);
        }
        lemma_scope_untouched(s, scope, keys.drop_last(), values.drop_last());
        let t = template(scope, keys.last());
        lemma_template_nonempty(scope, keys.last());
        assert(!contains_seq(s, template(scope, keys[k])));
        assert forall|j: int| 0 <= j implies !occurs_at(s, t, j) by {
            if occurs_at(s, t, j) {
                assert(contains_seq(s, t));
            }
        }
        lemma_replaced_absent(s, t, json_display(values.last()), 0, usize::MAX as nat);
        assert(s.skip(0) =~= s);
    }
}

/// Filling in the templates of one scope when the text is exactly the
/// template of its `i`-th key, no earlier key's template occurs in it and
/// no later key's template occurs in that key's text: the result is that
/// text.
proof fn lemma_scope_fills(
    input: Seq<char>,
    scope: Seq<char>,
    keys: Seq<Seq<char>>,
    values: Seq<Value>,
    i: int,
)
    requires
        keys.len() == values.len(),
        0 <= i < keys.len(),
        input == template(scope, keys[i]),
        forall|j: int| 0 <= j < i ==> !contains_seq(input, #[trigger] template(scope, keys[j])),
        forall|j: int|
            i < j < keys.len() ==> !contains_seq(json_display(values[i]), #[trigger] template(scope, keys[j])),
    ensures
        substitute_scope(input, scope, keys, values) == json_display(values[i]),
    decreases keys.len(),
{
    let text = json_display(values[i]);
    let last = keys.len() - 1;
    let dk = keys.drop_last();
    let dv = values.drop_last();
    lemma_template_nonempty(scope, keys.last());
    if last == i {
        assert forall|j: int| 0 <= j < dk.len() implies !contains_seq(input, #[trigger] template(scope, dk[j])) by {
            assert(dk[j] == keys[j]);
        }
        lemma_scope_untouched(input, scope, dk, dv);
        lemma_replaced_whole(input, text, usize::MAX as nat);
    } else {
        assert forall|j: int| 0 <= j < i implies !contains_seq(input, #[trigger] template(scope, dk[j])) by {
            assert(dk[j] == keys[j]);
        }
        assert forall|j: int| i < j < dk.len() implies !contains_seq(
            json_display(dv[i]),
            #[trigger] template(scope, dk[j]),
        ) by {
            assert(dk[j] == keys[j]);
        }
        assert(dk[i] == keys[i] && dv[i] == values[i]);
        lemma_scope_fills(input, scope, dk, dv, i);
        let t = template(scope, keys.last());
        assert(!contains_seq(text, template(scope, keys[last])));
        assert forall|j: int| 0 <= j implies !occurs_at(text, t, j) by {
            if occurs_at(text, t, j) {
                assert(contains_seq(text, t));
            }
        }
        lemma_replaced_absent(text, t, json_display(values.last()), 0, usize::MAX as nat);
        assert(text.skip(0) =~= text);
    }
}

/// The name a scope has in templates, as written in them.
pub open spec fn template_of(scope: VariableScope, key: Seq<char>) -> Seq<char> {
    "{var:"@ + match scope {
        VariableScope::Session => "session"@,
        VariableScope::Project => "project"@,
        VariableScope::System => "system"@,
    } + "."@ + key + "}"@
}

/// A template of a set variable is filled in: when the input is exactly
/// `{var:SCOPE.KEY}` for a variable of that scope, with `SCOPE` written
/// `session`, `project` or `system`, and no other variable's template
/// occurs in the input or in the variable's text, the result is the
/// variable's text.
pub proof fn law_template_filled_in(store: VariableStore, scope: VariableScope, key: Seq<char>, value: Value, input: Seq<char>)
    requires
        store.table(scope).lookup(key) == Some(value),
        unique_names::<Value>(store.table(scope).keys()),
        input == template_of(scope, key),
        forall|sc: VariableScope, k: Seq<char>|
            #![trigger store.table(sc).keys().contains(k), template_of(sc, k)]
            store.table(sc).keys().contains(k) && (sc != scope || k != key) ==> !contains_seq(
                input,
                template_of(sc, k),
            ) && !contains_seq(json_display(value), template_of(sc, k)),
    ensures
        store.substituted(input) == json_display(value),
{
    assert forall|sc: VariableScope, k: Seq<char>| #[trigger] template(scope_name(sc), k) == template_of(sc, k) by {}
    store.table(VariableScope::Session).lemma_lengths();
    store.table(VariableScope::Project).lemma_lengths();
    store.table(VariableScope::System).lemma_lengths();
    let t = store.table(scope);
    let i = t.index_of(key)->0;
    assert(t.keys()[i] == key);
    assert(t.values()[i] == value);
    // the scopes before and after the variable's scope leave the text alone
    assert forall|sc: VariableScope, j: int|
        sc != scope && 0 <= j < store.table(sc).keys().len() implies !contains_seq(
        input,
        #[trigger] template(scope_name(sc), store.table(sc).keys()[j]),
    ) && !contains_seq(json_display(value), template(scope_name(sc), store.table(sc).keys()[j])) by {
        let k = store.table(sc).keys()[j];
        assert(store.table(sc).keys().contains(k));
        assert(template(scope_name(sc), k) == template_of(sc, k));
    }
    assert forall|j: int| 0 <= j < t.keys().len() && j != i implies !contains_seq(
        input,
        #[trigger] template(scope_name(scope), t.keys()[j]),
    ) && !contains_seq(json_display(value), template(scope_name(scope), t.keys()[j])) by {
        let k = t.keys()[j];
        assert(k != key);
        assert(t.keys().contains(k));
        assert(template(scope_name(scope), k) == template_of(scope, k));
    }
    assert(input == template(scope_name(scope), t.keys()[i]));
    lemma_scope_fills(input, scope_name(scope), t.keys(), t.values(), i);
    let text = json_display(value);
    let ses = store.table(VariableScope::Session);
    let pro = store.table(VariableScope::Project);
    let sys = store.table(VariableScope::System);
    match scope {
        VariableScope::Session => {
            lemma_scope_untouched(text, scope_name(VariableScope::Project), pro.keys(), pro.values());
            lemma_scope_untouched(text, scope_name(VariableScope::System), sys.keys(), sys.values());
        },
        VariableScope::Project => {
            lemma_scope_untouched(input, scope_name(VariableScope::Session), ses.keys(), ses.values());
            lemma_scope_untouched(text, scope_name(VariableScope::System), sys.keys(), sys.values());
        },
        VariableScope::System => {
            lemma_scope_untouched(input, scope_name(VariableScope::Session), ses.keys(), ses.values());
            lemma_scope_untouched(input, scope_name(VariableScope::Project), pro.keys(), pro.values());
        },
    }
}

/// A text in which no variable's template occurs comes out unchanged.
pub proof fn law_text_without_templates_unchanged(store: VariableStore, input: Seq<char>)
    requires
        forall|sc: VariableScope, k: Seq<char>|
            #![trigger store.table(sc).keys().contains(k), template_of(sc, k)]
            store.table(sc).keys().contains(k) ==> !contains_seq(input, template_of(sc, k)),
    ensures
        store.substituted(input) == input,
{
    store.table(VariableScope::Session).lemma_lengths();
    store.table(VariableScope::Project).lemma_lengths();
    store.table(VariableScope::System).lemma_lengths();
    assert forall|sc: VariableScope, j: int|
        0 <= j < store.table(sc).keys().len() implies !contains_seq(
        input,
        #[trigger] template(scope_name(sc), store.table(sc).keys()[j]),
    ) by {
        let k = store.table(sc).keys()[j];
        assert(store.table(sc).keys().contains(k));
        assert(template(scope_name(sc), k) == template_of(sc, k));
    }
    let ses = store.table(VariableScope::Session);
    let pro = store.table(VariableScope::Project);
    let sys = store.table(VariableScope::System);
    lemma_scope_untouched(input, scope_name(VariableScope::Session), ses.keys(), ses.values());
    lemma_scope_untouched(input, scope_name(VariableScope::Project), pro.keys(), pro.values());
    lemma_scope_untouched(input, scope_name(VariableScope::System), sys.keys(), sys.values());
}

} // verus!
