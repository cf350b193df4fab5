//! Structured documents: the tree that a JSON or TOML text stands for.
use crate::text::same;
use crate::text_map::TextMap;
use serde_json::{Number, Value as Json};
use vstd::prelude::*;
use vstd::string::*;

verus! {

/// One named value of a table.
#[derive(Debug, PartialEq, Eq)]
pub struct Member {
    pub key: String,
    pub value: Value,
}

/// A document, or a part of one. A number is an `Integer` where it is written without a
/// fraction and an exponent and fits, else a `Decimal`, which keeps its text.
#[derive(Debug, PartialEq, Eq)]
pub enum Value {
    Null,
    Bool(bool),
    Integer(i128),
    Decimal(String),
    Text(String),
    List(Vec<Value>),
    Table(Vec<Member>),
}

/// What a [`Member`] stands for.
#[verifier::ext_equal]
pub ghost struct MemberTree {
    pub key: Seq<char>,
    pub value: Tree,
}

/// What a [`Value`] stands for.
#[verifier::ext_equal]
pub ghost enum Tree {
    Null,
    Bool(bool),
    Integer(int),
    Decimal(Seq<char>),
    Text(Seq<char>),
    List(Seq<Tree>),
    Table(Seq<MemberTree>),
}

/// The trees of a list of values.
pub open spec fn list_view(v: Seq<Value>) -> Seq<Tree>
    decreases v,
{
    Seq::new(
        v.len(),
        |i: int|
            if 0 <= i < v.len() {
                v[i].view()
            } else {
                Tree::Null
            },
    )
}

/// The trees of a table's members.
pub open spec fn table_view(v: Seq<Member>) -> Seq<MemberTree>
    decreases v,
{
    Seq::new(
        v.len(),
        |i: int|
            if 0 <= i < v.len() {
                MemberTree { key: v[i].key@, value: v[i].value.view() }
            } else {
                MemberTree { key: Seq::empty(), value: Tree::Null }
            },
    )
}

impl View for Value {
    type V = Tree;

    open spec fn view(&self) -> Tree
        decreases self,
    {
        match self {
            Value::Null => Tree::Null,
            Value::Bool(b) => Tree::Bool(*b),
            Value::Integer(n) => Tree::Integer(*n as int),
            Value::Decimal(s) => Tree::Decimal(s@),
            Value::Text(s) => Tree::Text(s@),
            Value::List(v) => Tree::List(list_view(v@)),
            Value::Table(v) => Tree::Table(table_view(v@)),
        }
    }
}

impl View for Member {
    type V = MemberTree;

    open spec fn view(&self) -> MemberTree {
        MemberTree { key: self.key@, value: self.value@ }
    }
}

impl Clone for Value {
    fn clone(&self) -> (res: Self)
        ensures
            res@ == self@,
        decreases self,
    {
        match self {
            Value::Null => Value::Null,
            Value::Bool(b) => Value::Bool(*b),
            Value::Integer(n) => Value::Integer(*n),
            Value::Decimal(s) => Value::Decimal(s.clone()),
            Value::Text(s) => Value::Text(s.clone()),
            Value::List(v) => {
                let mut out: Vec<Value> = Vec::new();
                let mut i: usize = 0;
                while i < v.len()
                    invariant
                        i <= v.len(),
                        out@.len() == i,
                        *self == Value::List(*v),
                        forall|j: int| 0 <= j < i ==> (#[trigger] out@[j])@ == v@[j]@,
                    decreases v.len() - i,
                {
                    assert(decreases_to!(self => v@[i as int])) by {
                        assert(decreases_to!(self => self->List_0));
                        assert(decreases_to!(v => v@));
                        assert(decreases_to!(v@ => v@[i as int]));
                    }
                    out.push(v[i].clone());
                    i += 1;
                }
                assert(list_view(out@) =~= list_view(v@));
                Value::List(out)
            }
            Value::Table(v) => {
                let mut out: Vec<Member> = Vec::new();
                let mut i: usize = 0;
                while i < v.len()
                    invariant
                        i <= v.len(),
                        out@.len() == i,
                        *self == Value::Table(*v),
                        forall|j: int| 0 <= j < i ==> (#[trigger] out@[j])@ == v@[j]@,
                    decreases v.len() - i,
                {
                    assert(decreases_to!(self => v@[i as int].value)) by {
                        assert(decreases_to!(self => self->Table_0));
                        assert(decreases_to!(v => v@));
                        assert(decreases_to!(v@ => v@[i as int]));
                        assert(decreases_to!(v@[i as int] => v@[i as int].value));
                    }
                    out.push(Member { key: v[i].key.clone(), value: v[i].value.clone() });
                    i += 1;
                }
                assert forall|j: int| 0 <= j < v@.len() implies table_view(out@)[j] == table_view(
                    v@,
                )[j] by {
                    assert(out@[j]@ == v@[j]@);
                }
                assert(table_view(out@) =~= table_view(v@));
                Value::Table(out)
            }
        }
    }
}

impl Tree {
    /// The tree is `Null` or has a part that is.
    pub open spec fn holds_null(self) -> bool
        decreases self,
    {
        match self {
            Tree::Null => true,
            Tree::List(items) => exists|i: int|
                0 <= i < items.len() && (#[trigger] items[i]).holds_null(),
            Tree::Table(members) => exists|i: int|
                0 <= i < members.len() && (#[trigger] members[i]).value.holds_null(),
            _ => false,
        }
    }
}

impl Value {
    /// Whether the value is `Null` or has a part that is.
    pub fn holds_null(&self) -> (res: bool)
        ensures
            res == self@.holds_null(),
        decreases self,
    {
        match self {
            Value::Null => true,
            Value::List(v) => {
                let ghost items = list_view(v@);
                let mut i: usize = 0;
                while i < v.len()
                    invariant
                        i <= v.len(),
                        *self == Value::List(*v),
                        items == list_view(v@),
                        self@ == Tree::List(items),
                        forall|j: int| 0 <= j < i ==> !(#[trigger] items[j]).holds_null(),
                    decreases v.len() - i,
                {
                    assert(decreases_to!(self => v@[i as int])) by {
                        assert(decreases_to!(self => self->List_0));
                        assert(decreases_to!(v => v@));
                        assert(decreases_to!(v@ => v@[i as int]));
                    }
                    assert(items[i as int] == v@[i as int]@);
                    if v[i].holds_null() {
                        assert(self@->List_0[i as int].holds_null());
                        return true;
                    }
                    i += 1;
                }
                false
            },
            Value::Table(v) => {
                let ghost members = table_view(v@);
                let mut i: usize = 0;
                while i < v.len()
                    invariant
                        i <= v.len(),
                        *self == Value::Table(*v),
                        members == table_view(v@),
                        self@ == Tree::Table(members),
                        forall|j: int|
                            0 <= j < i ==> !(#[trigger] members[j]).value.holds_null(),
                    decreases v.len() - i,
                {
                    assert(decreases_to!(self => v@[i as int].value)) by {
                        assert(decreases_to!(self => self->Table_0));
                        assert(decreases_to!(v => v@));
                        assert(decreases_to!(v@ => v@[i as int]));
                        assert(decreases_to!(v@[i as int] => v@[i as int].value));
                    }
                    assert(members[i as int].value == v@[i as int].value@);
                    if v[i].value.holds_null() {
                        assert(members[i as int].value.holds_null());
                        return true;
                    }
                    i += 1;
                }
                false
            },
            _ => false,
        }
    }
}

/// `i` is the first place at which `members` names `key`.
pub open spec fn names_first(members: Seq<MemberTree>, key: Seq<char>, i: int) -> bool {
    &&& 0 <= i < members.len()
    &&& members[i].key == key
    &&& forall|j: int| 0 <= j < i ==> (#[trigger] members[j]).key != key
}

/// The value that `members` has under `key`.
pub open spec fn named_value(members: Seq<MemberTree>, key: Seq<char>) -> Option<Tree> {
    if exists|i: int| names_first(members, key, i) {
        Some(members[choose|i: int| names_first(members, key, i)].value)
    } else {
        None
    }
}

/// `members` with `value` under `key`: in the place of the value that was there, else at the end.
pub open spec fn with_named(members: Seq<MemberTree>, key: Seq<char>, value: Tree) -> Seq<
    MemberTree,
> {
    if exists|i: int| names_first(members, key, i) {
        members.update(choose|i: int| names_first(members, key, i), MemberTree { key, value })
    } else {
        members.push(MemberTree { key, value })
    }
}

impl Tree {
    /// The value under `key`, if this is a table that has one.
    pub open spec fn member(self, key: Seq<char>) -> Option<Tree> {
        match self {
            Tree::Table(members) => named_value(members, key),
            _ => None,
        }
    }

    /// The table with `value` under `key`; `Null` counts as the empty table.
    pub open spec fn with_member(self, key: Seq<char>, value: Tree) -> Tree {
        match self {
            Tree::Table(members) => Tree::Table(with_named(members, key, value)),
            _ => Tree::Table(seq![MemberTree { key, value }]),
        }
    }

    /// Members can be set: this is a table, or `Null`.
    pub open spec fn takes_members(self) -> bool {
        self is Table || self is Null
    }
}

/// There is one first place.
proof fn first_place_is_one(members: Seq<MemberTree>, key: Seq<char>, i: int, j: int)
    requires
        names_first(members, key, i),
        names_first(members, key, j),
    ensures
        i == j,
{
    if i < j {
        assert(members[i].key != key);
    }
    if j < i {
        assert(members[j].key != key);
    }
}

/// Where no name occurs twice, each member is found under its name.
pub proof fn distinct_member_is_found(members: Seq<MemberTree>, i: int)
    requires
        distinct_names(members),
        0 <= i < members.len(),
    ensures
        named_value(members, members[i].key) == Some(members[i].value),
{
    let key = members[i].key;
    assert forall|j: int| 0 <= j < i implies (#[trigger] members[j]).key != key by {
    }
    assert(names_first(members, key, i));
    let f = choose|f: int| names_first(members, key, f);
    first_place_is_one(members, key, i, f);
}

/// A value that was set is the one that is found, and every other name keeps what it had.
pub proof fn set_member_is_found(tree: Tree, key: Seq<char>, value: Tree, other: Seq<char>)
    requires
        tree.takes_members(),
    ensures
        tree.with_member(key, value).member(key) == Some(value),
        other != key ==> tree.with_member(key, value).member(other) == tree.member(other),
{
    let before = match tree {
        Tree::Table(members) => members,
        _ => Seq::<MemberTree>::empty(),
    };
    let after = tree.with_member(key, value)->Table_0;
    assert(after =~= with_named(before, key, value));
    if exists|i: int| names_first(before, key, i) {
        let i = choose|i: int| names_first(before, key, i);
        assert(names_first(after, key, i));
        let f = choose|j: int| names_first(after, key, j);
        first_place_is_one(after, key, i, f);
    } else {
        let last = before.len() as int;
        assert forall|j: int| 0 <= j < last implies (#[trigger] after[j]).key != key by {
            if before[j].key == key {
                no_first_place_no_name(before, key, j);
            }
        }
        assert(names_first(after, key, last));
        let f = choose|j: int| names_first(after, key, j);
        first_place_is_one(after, key, last, f);
    }
    if other != key {
        assert forall|i: int| names_first(before, other, i) <==> names_first(after, other, i) by {
            if names_first(before, other, i) {
                assert forall|j: int| 0 <= j < i implies (#[trigger] after[j]).key != other by {
                    assert(before[j].key != other);
                }
            }
            if names_first(after, other, i) {
                assert(i < before.len());
                assert forall|j: int| 0 <= j < i implies (#[trigger] before[j]).key != other by {
                    assert(after[j].key != other);
                }
            }
        }
        if exists|i: int| names_first(before, other, i) {
            let i = choose|i: int| names_first(before, other, i);
            assert(names_first(after, other, i));
            let k = choose|j: int| names_first(after, other, j);
            first_place_is_one(after, other, i, k);
        } else {
            assert(!exists|i: int| names_first(after, other, i));
        }
    }
}

/// To set the value that is there changes nothing.
pub proof fn same_member_changes_nothing(tree: Tree, key: Seq<char>, value: Tree)
    requires
        tree.member(key) == Some(value),
    ensures
        tree.with_member(key, value) == tree,
{
    let members = tree->Table_0;
    let i = choose|i: int| names_first(members, key, i);
    assert(names_first(members, key, i));
    assert(members.update(i, MemberTree { key, value }) =~= members);
}

/// Where a name occurs at all, it has a first place.
proof fn no_first_place_no_name(members: Seq<MemberTree>, key: Seq<char>, j: int)
    requires
        0 <= j < members.len(),
        members[j].key == key,
    ensures
        exists|i: int| names_first(members, key, i),
    decreases j,
{
    if forall|k: int| 0 <= k < j ==> (#[trigger] members[k]).key != key {
        assert(names_first(members, key, j));
    } else {
        let k = choose|k: int| 0 <= k < j && (#[trigger] members[k]).key == key;
        no_first_place_no_name(members, key, k);
    }
}

/// The place at which `members` first names `key`; their number, if it does not.
fn first_place(members: &Vec<Member>, key: &str) -> (res: usize)
    ensures
        res <= members@.len(),
        res < members@.len() ==> names_first(table_view(members@), key@, res as int),
        res == members@.len() ==> !exists|i: int| names_first(table_view(members@), key@, i),
{
    let mut i: usize = 0;
    while i < members.len()
        invariant
            i <= members@.len(),
            forall|j: int| 0 <= j < i ==> (#[trigger] table_view(members@)[j]).key != key@,
        decreases members.len() - i,
    {
        assert(table_view(members@)[i as int].key == members@[i as int].key@);
        if same(members[i].key.as_str(), key) {
            return i;
        }
        i += 1;
    }
    i
}

impl Value {
    /// The value under `key`, if this is a table that has one.
    pub fn get(&self, key: &str) -> (res: Option<&Value>)
        ensures
            res is Some <==> self@.member(key@) is Some,
            res is Some ==> self@.member(key@) == Some(res->0@),
    {
        match self {
            Value::Table(members) => {
                let i: usize = first_place(members, key);
                if i < members.len() {
                    proof {
                        let all = table_view(members@);
                        let f = choose|j: int| names_first(all, key@, j);
                        first_place_is_one(all, key@, i as int, f);
                    }
                    Some(&members[i].value)
                } else {
                    None
                }
            },
            _ => None,
        }
    }

    /// The table with `value` under `key`.
    pub fn with_member(self, key: &str, value: Value) -> (res: Value)
        requires
            self@.takes_members(),
        ensures
            res@ == self@.with_member(key@, value@),
    {
        match self {
            Value::Table(members) => {
                let mut members = members;
                let ghost before = table_view(members@);
                let i: usize = first_place(&members, key);
                let member = Member { key: key.to_owned(), value };
                let ghost new = member@;
                if i < members.len() {
                    proof {
                        let f = choose|j: int| names_first(before, key@, j);
                        first_place_is_one(before, key@, i as int, f);
                    }
                    members.set(i, member);
                    assert(table_view(members@) =~= before.update(i as int, new));
                } else {
                    members.push(member);
                    assert(table_view(members@) =~= before.push(new));
                }
                Value::Table(members)
            },
            _ => {
                let mut members: Vec<Member> = Vec::new();
                members.push(Member { key: key.to_owned(), value });
                assert(table_view(members@) =~= seq![MemberTree { key: key@, value: value@ }]);
                Value::Table(members)
            },
        }
    }
}

/// A text, or nothing.
pub open spec fn text_tree(s: Option<Seq<char>>) -> Tree {
    match s {
        Some(s) => Tree::Text(s),
        None => Tree::Null,
    }
}

/// A member of a table.
pub open spec fn named(key: Seq<char>, value: Tree) -> MemberTree {
    MemberTree { key, value }
}

/// A member of a table.
pub fn member(key: &str, value: Value) -> (res: Member)
    ensures
        res@ == named(key@, value@),
{
    Member { key: key.to_owned(), value }
}

/// "`key` must be `kind`."
pub open spec fn wrong_kind(key: Seq<char>, kind: Seq<char>) -> Seq<char> {
    "`"@ + key + "` must be "@ + kind
}

/// "missing field `key`"
pub open spec fn missing(key: Seq<char>) -> Seq<char> {
    "missing field `"@ + key + "`"@
}

/// "unknown field `key`"
pub open spec fn unknown(key: Seq<char>) -> Seq<char> {
    "unknown field `"@ + key + "`"@
}

/// The name of the first member from place `i` on that is not `allowed`.
pub open spec fn stranger(
    members: Seq<MemberTree>,
    allowed: Seq<Seq<char>>,
    i: int,
) -> Option<Seq<char>>
    decreases members.len() - i,
{
    if i < 0 || i >= members.len() {
        None
    } else if !allowed.contains(members[i].key) {
        Some(members[i].key)
    } else {
        stranger(members, allowed, i + 1)
    }
}

/// All of `items` are texts.
pub open spec fn all_texts(items: Seq<Tree>) -> bool {
    forall|i: int| 0 <= i < items.len() ==> #[trigger] items[i] is Text
}

/// All of `items` are numbers of eight bits.
pub open spec fn all_bytes(items: Seq<Tree>) -> bool {
    forall|i: int|
        0 <= i < items.len() ==> #[trigger] items[i] is Integer && 0 <= items[i]->Integer_0 <= 255
}

/// The tree is a list of two texts.
pub open spec fn is_pair(t: Tree) -> bool {
    &&& t is List
    &&& t->List_0.len() == 2
    &&& t->List_0[0] is Text
    &&& t->List_0[1] is Text
}

/// The two texts of a pair.
pub open spec fn pair_of(t: Tree) -> (Seq<char>, Seq<char>) {
    (t->List_0[0]->Text_0, t->List_0[1]->Text_0)
}

/// All of `items` are pairs of texts.
pub open spec fn all_pairs(items: Seq<Tree>) -> bool {
    forall|i: int| 0 <= i < items.len() ==> is_pair(#[trigger] items[i])
}

/// The values of all of `members` are texts.
pub open spec fn all_text_members(members: Seq<MemberTree>) -> bool {
    forall|i: int| 0 <= i < members.len() ==> (#[trigger] members[i]).value is Text
}

/// The map from the names of `members` to their texts; a later member replaces an earlier one.
pub open spec fn text_pairs(members: Seq<MemberTree>) -> Map<Seq<char>, Seq<char>>
    decreases members.len(),
{
    if members.len() == 0 {
        Map::empty()
    } else {
        text_pairs(members.drop_last()).insert(members.last().key, members.last().value->Text_0)
    }
}

impl Tree {
    /// The table that a list of values in the order of `names` stands for, if the list has `least`
    /// items or more, and no more than there are names; else this itself.
    pub open spec fn in_order(self, names: Seq<Seq<char>>, least: nat) -> Tree {
        match self {
            Tree::List(items) => if least <= items.len() <= names.len() {
                Tree::Table(Seq::new(items.len(), |i: int| named(names[i], items[i])))
            } else {
                self
            },
            _ => self,
        }
    }

    /// The first `n` items of a list that has more than those; else this itself.
    pub open spec fn first_items(self, n: nat) -> Tree {
        match self {
            Tree::List(items) => if items.len() > n {
                Tree::List(items.take(n as int))
            } else {
                self
            },
            _ => self,
        }
    }

    /// Whether this says nothing: an empty list, or an empty table.
    pub open spec fn says_nothing(self) -> bool {
        match self {
            Tree::List(items) => items.len() == 0,
            Tree::Table(members) => members.len() == 0,
            _ => false,
        }
    }

    /// Whether this is a list that begins with the text `s`.
    pub open spec fn begins(self, s: Seq<char>) -> bool {
        match self {
            Tree::List(items) => items.len() > 0 && items[0] == Tree::Text(s),
            _ => false,
        }
    }

    /// The name that stands alone, or as the one member of a table that says no more of it.
    pub open spec fn bare_name(self) -> Option<Seq<char>> {
        match self {
            Tree::Text(s) => Some(s),
            Tree::Table(members) => if members.len() == 1 && members[0].value is Null {
                Some(members[0].key)
            } else {
                None
            },
            _ => None,
        }
    }

    /// A table that has no member but the `allowed` ones.
    pub open spec fn table_of(self, what: Seq<char>, allowed: Seq<Seq<char>>) -> Result<
        (),
        Seq<char>,
    > {
        match self {
            Tree::Table(members) => match stranger(members, allowed, 0) {
                Some(key) => Err(unknown(key)),
                None => Ok(()),
            },
            _ => Err(wrong_kind(what, "a table"@)),
        }
    }

    /// A table.
    pub open spec fn table(self, what: Seq<char>) -> Result<(), Seq<char>> {
        if self is Table {
            Ok(())
        } else {
            Err(wrong_kind(what, "a table"@))
        }
    }

    /// The bare name under `key`, which must be there.
    pub open spec fn need_name(self, key: Seq<char>) -> Result<Seq<char>, Seq<char>> {
        match self.member(key) {
            Some(sub) => match sub.bare_name() {
                Some(s) => Ok(s),
                None => Err(wrong_kind(key, "a name"@)),
            },
            None => Err(missing(key)),
        }
    }

    /// The text under `key`, which must be there.
    pub open spec fn need_text(self, key: Seq<char>) -> Result<Seq<char>, Seq<char>> {
        match self.member(key) {
            Some(Tree::Text(s)) => Ok(s),
            Some(_) => Err(wrong_kind(key, "a text"@)),
            None => Err(missing(key)),
        }
    }

    /// The text under `key`, if there is one; with `nullable`, `Null` counts as none.
    pub open spec fn opt_text(self, key: Seq<char>, nullable: bool) -> Result<
        Option<Seq<char>>,
        Seq<char>,
    > {
        match self.member(key) {
            Some(Tree::Text(s)) => Ok(Some(s)),
            Some(t) => if nullable && t is Null {
                Ok(None)
            } else {
                Err(wrong_kind(key, "a text"@))
            },
            None => Ok(None),
        }
    }

    /// The truth value under `key`; false, if there is none.
    pub open spec fn flag(self, key: Seq<char>) -> Result<bool, Seq<char>> {
        match self.member(key) {
            Some(Tree::Bool(b)) => Ok(b),
            Some(_) => Err(wrong_kind(key, "true or false"@)),
            None => Ok(false),
        }
    }

    /// The texts of the list under `key`; none, if there is no list.
    pub open spec fn text_list(self, key: Seq<char>) -> Result<Seq<Seq<char>>, Seq<char>> {
        match self.member(key) {
            Some(Tree::List(items)) => if all_texts(items) {
                Ok(Seq::new(items.len(), |i: int| items[i]->Text_0))
            } else {
                Err(wrong_kind(key, "a list of texts"@))
            },
            Some(_) => Err(wrong_kind(key, "a list of texts"@)),
            None => Ok(Seq::empty()),
        }
    }

    /// The texts of the table under `key`; none, if there is no table.
    pub open spec fn text_table(self, key: Seq<char>) -> Result<
        Map<Seq<char>, Seq<char>>,
        Seq<char>,
    > {
        match self.member(key) {
            Some(Tree::Table(members)) => if all_text_members(members) {
                Ok(text_pairs(members))
            } else {
                Err(wrong_kind(key, "a table of texts"@))
            },
            Some(_) => Err(wrong_kind(key, "a table of texts"@)),
            None => Ok(Map::empty()),
        }
    }

    /// The text under `key`; the empty text, if there is none.
    pub open spec fn text_or_empty(self, key: Seq<char>) -> Result<Seq<char>, Seq<char>> {
        match self.member(key) {
            Some(Tree::Text(s)) => Ok(s),
            Some(_) => Err(wrong_kind(key, "a text"@)),
            None => Ok(Seq::empty()),
        }
    }

    /// The texts of the list under `key`, which must be there.
    pub open spec fn need_text_list(self, key: Seq<char>) -> Result<Seq<Seq<char>>, Seq<char>> {
        if self.member(key) is None {
            Err(missing(key))
        } else {
            self.text_list(key)
        }
    }

    /// The pairs of the list under `key`; none, if there is no list.
    pub open spec fn pair_list(self, key: Seq<char>) -> Result<
        Seq<(Seq<char>, Seq<char>)>,
        Seq<char>,
    > {
        match self.member(key) {
            Some(Tree::List(items)) => if all_pairs(items) {
                Ok(Seq::new(items.len(), |i: int| pair_of(items[i])))
            } else {
                Err(wrong_kind(key, "a list of pairs of texts"@))
            },
            Some(_) => Err(wrong_kind(key, "a list of pairs of texts"@)),
            None => Ok(Seq::empty()),
        }
    }

    /// The pairs of the list under `key`, which must be there.
    pub open spec fn need_pair_list(self, key: Seq<char>) -> Result<
        Seq<(Seq<char>, Seq<char>)>,
        Seq<char>,
    > {
        if self.member(key) is None {
            Err(missing(key))
        } else {
            self.pair_list(key)
        }
    }

    /// The number under `key`, which must be there and fit into 32 bits.
    pub open spec fn need_u32(self, key: Seq<char>) -> Result<u32, Seq<char>> {
        match self.member(key) {
            Some(Tree::Integer(n)) => if 0 <= n <= u32::MAX {
                Ok(n as u32)
            } else {
                Err(wrong_kind(key, "a number of 32 bits"@))
            },
            Some(_) => Err(wrong_kind(key, "a number of 32 bits"@)),
            None => Err(missing(key)),
        }
    }

    /// The number under `key`, if there is one; it must fit into 32 bits.
    pub open spec fn opt_u32(self, key: Seq<char>) -> Result<Option<u32>, Seq<char>> {
        match self.member(key) {
            Some(Tree::Integer(n)) => if 0 <= n <= u32::MAX {
                Ok(Some(n as u32))
            } else {
                Err(wrong_kind(key, "a number of 32 bits"@))
            },
            Some(Tree::Null) => Ok(None),
            Some(_) => Err(wrong_kind(key, "a number of 32 bits"@)),
            None => Ok(None),
        }
    }

    /// The number under `key`, if there is one; it must fit into 64 bits.
    pub open spec fn opt_u64(self, key: Seq<char>) -> Result<Option<u64>, Seq<char>> {
        match self.member(key) {
            Some(Tree::Integer(n)) => if 0 <= n <= u64::MAX {
                Ok(Some(n as u64))
            } else {
                Err(wrong_kind(key, "a number of 64 bits"@))
            },
            Some(Tree::Null) => Ok(None),
            Some(_) => Err(wrong_kind(key, "a number of 64 bits"@)),
            None => Ok(None),
        }
    }

    /// The bytes of the list of numbers under `key`, which must be there.
    pub open spec fn need_bytes(self, key: Seq<char>) -> Result<Seq<u8>, Seq<char>> {
        match self.member(key) {
            Some(Tree::List(items)) => if all_bytes(items) {
                Ok(Seq::new(items.len(), |i: int| items[i]->Integer_0 as u8))
            } else {
                Err(wrong_kind(key, "a list of bytes"@))
            },
            Some(_) => Err(wrong_kind(key, "a list of bytes"@)),
            None => Err(missing(key)),
        }
    }

    /// The items of the list under `key`; none, if there is no list.
    pub open spec fn items(self, key: Seq<char>) -> Result<Seq<Tree>, Seq<char>> {
        match self.member(key) {
            Some(Tree::List(items)) => Ok(items),
            Some(_) => Err(wrong_kind(key, "a list"@)),
            None => Ok(Seq::empty()),
        }
    }
}

/// "`key` must be `kind`."
pub fn wrong_kind_text(key: &str, kind: &str) -> (res: String)
    ensures
        res@ == wrong_kind(key@, kind@),
{
    let mut text = String::from_str("`");
    text.append(key);
    text.append("` must be ");
    text.append(kind);
    text
}

/// "missing field `key`"
pub fn missing_text(key: &str) -> (res: String)
    ensures
        res@ == missing(key@),
{
    let mut text = String::from_str("missing field `");
    text.append(key);
    text.append("`");
    text
}

/// Whether `key` is among `allowed`.
fn is_allowed(key: &str, allowed: &[&str]) -> (res: bool)
    ensures
        res == allowed.deep_view().contains(key@),
{
    let mut i: usize = 0;
    while i < allowed.len()
        invariant
            i <= allowed@.len(),
            forall|j: int| 0 <= j < i ==> allowed.deep_view()[j] != key@,
        decreases allowed.len() - i,
    {
        assert(allowed.deep_view()[i as int] == allowed@[i as int]@);
        if same(allowed[i], key) {
            return true;
        }
        i += 1;
    }
    false
}

impl Value {
    /// The table that a list of values in the order of `names` stands for; else a copy of this.
    pub fn in_order(&self, names: &[&str], least: usize) -> (res: Value)
        ensures
            res@ == self@.in_order(names.deep_view(), least as nat),
    {
        match self {
            Value::List(items) => {
                if items.len() < least || items.len() > names.len() {
                    return self.clone();
                }
                let mut members: Vec<Member> = Vec::new();
                let mut i: usize = 0;
                while i < items.len()
                    invariant
                        i <= items@.len() <= names@.len(),
                        members@.len() == i,
                        forall|j: int|
                            0 <= j < i ==> (#[trigger] members@[j])@ == named(
                                names.deep_view()[j],
                                items@[j]@,
                            ),
                    decreases items.len() - i,
                {
                    assert(names.deep_view()[i as int] == names@[i as int]@);
                    members.push(member(names[i], items[i].clone()));
                    i += 1;
                }
                assert(table_view(members@) =~= Seq::new(
                    items@.len(),
                    |i: int| named(names.deep_view()[i], list_view(items@)[i]),
                )) by {
                    assert forall|j: int| 0 <= j < items@.len() implies table_view(members@)[j]
                        == named(names.deep_view()[j], list_view(items@)[j]) by {
                        assert(members@[j]@ == named(names.deep_view()[j], items@[j]@));
                    }
                }
                Value::Table(members)
            },
            _ => self.clone(),
        }
    }

    /// A copy of this, with no more than the first `n` items where it is a list.
    pub fn first_items(&self, n: usize) -> (res: Value)
        ensures
            res@ == self@.first_items(n as nat),
    {
        match self {
            Value::List(items) => {
                if items.len() <= n {
                    return self.clone();
                }
                let mut out: Vec<Value> = Vec::new();
                let mut i: usize = 0;
                while i < n
                    invariant
                        i <= n < items@.len(),
                        out@.len() == i,
                        forall|j: int| 0 <= j < i ==> (#[trigger] out@[j])@ == items@[j]@,
                    decreases n - i,
                {
                    out.push(items[i].clone());
                    i += 1;
                }
                assert(list_view(out@) =~= list_view(items@).take(n as int));
                Value::List(out)
            },
            _ => self.clone(),
        }
    }

    /// Tells whether this is an empty list, or an empty table.
    pub fn says_nothing(&self) -> (res: bool)
        ensures
            res == self@.says_nothing(),
    {
        match self {
            Value::List(items) => items.len() == 0,
            Value::Table(members) => members.len() == 0,
            _ => false,
        }
    }

    /// Tells whether this is a list that begins with the text `s`.
    pub fn begins(&self, s: &str) -> (res: bool)
        ensures
            res == self@.begins(s@),
    {
        match self {
            Value::List(items) => {
                if items.len() == 0 {
                    return false;
                }
                assert(list_view(items@)[0] == items@[0]@);
                match &items[0] {
                    Value::Text(t) => same(t.as_str(), s),
                    _ => false,
                }
            },
            _ => false,
        }
    }

    /// The name that stands alone, or as the one member of a table that says no more of it.
    pub fn bare_name(&self) -> (res: Option<&str>)
        ensures
            res is Some <==> self@.bare_name() is Some,
            res is Some ==> self@.bare_name() == Some(res->0@),
    {
        match self {
            Value::Text(s) => Some(s.as_str()),
            Value::Table(members) => {
                if members.len() != 1 {
                    return None;
                }
                assert(table_view(members@)[0] == members@[0]@);
                match &members[0].value {
                    Value::Null => Some(members[0].key.as_str()),
                    _ => None,
                }
            },
            _ => None,
        }
    }

    /// Tells whether this is a table that has no member but the `allowed` ones; if not, why.
    pub fn check_table(&self, what: &str, allowed: &[&str]) -> (res: Result<(), String>)
        ensures
            match res {
                Ok(_) => self@.table_of(what@, allowed.deep_view()) is Ok,
                Err(e) => self@.table_of(what@, allowed.deep_view()) == Err::<(), Seq<char>>(e@),
            },
    {
        match self {
            Value::Table(members) => {
                let ghost all = table_view(members@);
                let ghost names = allowed.deep_view();
                let mut i: usize = 0;
                while i < members.len()
                    invariant
                        i <= members@.len(),
                        all == table_view(members@),
                        names == allowed.deep_view(),
                        self@ == Tree::Table(all),
                        stranger(all, names, 0) == stranger(all, names, i as int),
                    decreases members.len() - i,
                {
                    assert(all[i as int].key == members@[i as int].key@);
                    if !is_allowed(members[i].key.as_str(), allowed) {
                        let mut text = String::from_str("unknown field `");
                        text.append(members[i].key.as_str());
                        text.append("`");
                        return Err(text);
                    }
                    i += 1;
                }
                Ok(())
            },
            _ => Err(wrong_kind_text(what, "a table")),
        }
    }

    /// Tells whether this is a table; if not, why.
    pub fn check_kind(&self, what: &str) -> (res: Result<(), String>)
        ensures
            match res {
                Ok(_) => self@.table(what@) is Ok,
                Err(e) => self@.table(what@) == Err::<(), Seq<char>>(e@),
            },
    {
        match self {
            Value::Table(_) => Ok(()),
            _ => Err(wrong_kind_text(what, "a table")),
        }
    }

    /// The bare name under `key`, which must be there.
    pub fn need_name(&self, key: &str) -> (res: Result<String, String>)
        ensures
            match res {
                Ok(s) => self@.need_name(key@) == Ok::<Seq<char>, Seq<char>>(s@),
                Err(e) => self@.need_name(key@) == Err::<Seq<char>, Seq<char>>(e@),
            },
    {
        match self.get(key) {
            Some(sub) => match sub.bare_name() {
                Some(s) => Ok(s.to_owned()),
                None => Err(wrong_kind_text(key, "a name")),
            },
            None => Err(missing_text(key)),
        }
    }

    /// The text under `key`, which must be there.
    pub fn need_text(&self, key: &str) -> (res: Result<String, String>)
        ensures
            match res {
                Ok(s) => self@.need_text(key@) == Ok::<Seq<char>, Seq<char>>(s@),
                Err(e) => self@.need_text(key@) == Err::<Seq<char>, Seq<char>>(e@),
            },
    {
        match self.get(key) {
            Some(Value::Text(s)) => Ok(s.clone()),
            Some(_) => Err(wrong_kind_text(key, "a text")),
            None => Err(missing_text(key)),
        }
    }

    /// The text under `key`, if there is one; with `nullable`, `Null` counts as none.
    pub fn opt_text(&self, key: &str, nullable: bool) -> (res: Result<Option<String>, String>)
        ensures
            match res {
                Ok(s) => self@.opt_text(key@, nullable) == Ok::<Option<Seq<char>>, Seq<char>>(
                    s.deep_view(),
                ),
                Err(e) => self@.opt_text(key@, nullable) == Err::<Option<Seq<char>>, Seq<char>>(e@),
            },
    {
        match self.get(key) {
            Some(Value::Text(s)) => Ok(Some(s.clone())),
            Some(Value::Null) => if nullable {
                Ok(None)
            } else {
                Err(wrong_kind_text(key, "a text"))
            },
            Some(_) => Err(wrong_kind_text(key, "a text")),
            None => Ok(None),
        }
    }

    /// The text under `key`; the empty text, if there is none.
    pub fn text_or_empty(&self, key: &str) -> (res: Result<String, String>)
        ensures
            match res {
                Ok(s) => self@.text_or_empty(key@) == Ok::<Seq<char>, Seq<char>>(s@),
                Err(e) => self@.text_or_empty(key@) == Err::<Seq<char>, Seq<char>>(e@),
            },
    {
        match self.get(key) {
            Some(Value::Text(s)) => Ok(s.clone()),
            Some(_) => Err(wrong_kind_text(key, "a text")),
            None => Ok(String::new()),
        }
    }

    /// The number under `key`, which must be there and fit into 32 bits.
    pub fn need_u32(&self, key: &str) -> (res: Result<u32, String>)
        ensures
            match res {
                Ok(n) => self@.need_u32(key@) == Ok::<u32, Seq<char>>(n),
                Err(e) => self@.need_u32(key@) == Err::<u32, Seq<char>>(e@),
            },
    {
        match self.get(key) {
            Some(Value::Integer(n)) => if 0 <= *n && *n <= 0xffff_ffff {
                Ok(*n as u32)
            } else {
                Err(wrong_kind_text(key, "a number of 32 bits"))
            },
            Some(_) => Err(wrong_kind_text(key, "a number of 32 bits")),
            None => Err(missing_text(key)),
        }
    }

    /// The number under `key`, if there is one; it must fit into 32 bits.
    pub fn opt_u32(&self, key: &str) -> (res: Result<Option<u32>, String>)
        ensures
            match res {
                Ok(n) => self@.opt_u32(key@) == Ok::<Option<u32>, Seq<char>>(n),
                Err(e) => self@.opt_u32(key@) == Err::<Option<u32>, Seq<char>>(e@),
            },
    {
        match self.get(key) {
            Some(Value::Integer(n)) => if 0 <= *n && *n <= 0xffff_ffff {
                Ok(Some(*n as u32))
            } else {
                Err(wrong_kind_text(key, "a number of 32 bits"))
            },
            Some(Value::Null) => Ok(None),
            Some(_) => Err(wrong_kind_text(key, "a number of 32 bits")),
            None => Ok(None),
        }
    }

    /// The number under `key`, if there is one; it must fit into 64 bits.
    pub fn opt_u64(&self, key: &str) -> (res: Result<Option<u64>, String>)
        ensures
            match res {
                Ok(n) => self@.opt_u64(key@) == Ok::<Option<u64>, Seq<char>>(n),
                Err(e) => self@.opt_u64(key@) == Err::<Option<u64>, Seq<char>>(e@),
            },
    {
        match self.get(key) {
            Some(Value::Integer(n)) => if 0 <= *n && *n <= 0xffff_ffff_ffff_ffff {
                Ok(Some(*n as u64))
            } else {
                Err(wrong_kind_text(key, "a number of 64 bits"))
            },
            Some(Value::Null) => Ok(None),
            Some(_) => Err(wrong_kind_text(key, "a number of 64 bits")),
            None => Ok(None),
        }
    }

    /// The bytes of the list of numbers under `key`, which must be there.
    pub fn need_bytes(&self, key: &str) -> (res: Result<Vec<u8>, String>)
        ensures
            match res {
                Ok(v) => self@.need_bytes(key@) == Ok::<Seq<u8>, Seq<char>>(v@),
                Err(e) => self@.need_bytes(key@) == Err::<Seq<u8>, Seq<char>>(e@),
            },
    {
        match self.get(key) {
            Some(Value::List(items)) => {
                let ghost trees = list_view(items@);
                let mut out: Vec<u8> = Vec::new();
                let mut i: usize = 0;
                while i < items.len()
                    invariant
                        i <= items@.len(),
                        trees == list_view(items@),
                        self@.member(key@) == Some(Tree::List(trees)),
                        out@.len() == i,
                        forall|j: int|
                            0 <= j < i ==> #[trigger] trees[j] is Integer && 0
                                <= trees[j]->Integer_0 <= 255 && out@[j] == trees[j]->Integer_0,
                    decreases items.len() - i,
                {
                    assert(trees[i as int] == items@[i as int]@);
                    match &items[i] {
                        Value::Integer(n) => {
                            if *n < 0 || *n > 255 {
                                return Err(wrong_kind_text(key, "a list of bytes"));
                            }
                            out.push(*n as u8);
                        },
                        _ => {
                            return Err(wrong_kind_text(key, "a list of bytes"));
                        },
                    }
                    i += 1;
                }
                assert(out@ =~= Seq::new(trees.len(), |i: int| trees[i]->Integer_0 as u8));
                Ok(out)
            },
            Some(_) => Err(wrong_kind_text(key, "a list of bytes")),
            None => Err(missing_text(key)),
        }
    }

    /// The truth value under `key`; false, if there is none.
    pub fn flag(&self, key: &str) -> (res: Result<bool, String>)
        ensures
            match res {
                Ok(b) => self@.flag(key@) == Ok::<bool, Seq<char>>(b),
                Err(e) => self@.flag(key@) == Err::<bool, Seq<char>>(e@),
            },
    {
        match self.get(key) {
            Some(Value::Bool(b)) => Ok(*b),
            Some(_) => Err(wrong_kind_text(key, "true or false")),
            None => Ok(false),
        }
    }

    /// The texts of the list under `key`; none, if there is no list.
    pub fn text_list(&self, key: &str) -> (res: Result<Vec<String>, String>)
        ensures
            match res {
                Ok(v) => self@.text_list(key@) == Ok::<Seq<Seq<char>>, Seq<char>>(v.deep_view()),
                Err(e) => self@.text_list(key@) == Err::<Seq<Seq<char>>, Seq<char>>(e@),
            },
    {
        match self.get(key) {
            Some(Value::List(items)) => {
                let ghost trees = list_view(items@);
                let mut out: Vec<String> = Vec::new();
                let mut i: usize = 0;
                while i < items.len()
                    invariant
                        i <= items@.len(),
                        trees == list_view(items@),
                        self@.member(key@) == Some(Tree::List(trees)),
                        out@.len() == i,
                        forall|j: int|
                            0 <= j < i ==> #[trigger] trees[j] is Text && out@[j]@
                                == trees[j]->Text_0,
                    decreases items.len() - i,
                {
                    assert(trees[i as int] == items@[i as int]@);
                    match &items[i] {
                        Value::Text(s) => {
                            out.push(s.clone());
                        },
                        _ => {
                            assert(!(trees[i as int] is Text));
                            return Err(wrong_kind_text(key, "a list of texts"));
                        },
                    }
                    i += 1;
                }
                assert(out.deep_view() =~= Seq::new(trees.len(), |i: int| trees[i]->Text_0));
                Ok(out)
            },
            Some(_) => Err(wrong_kind_text(key, "a list of texts")),
            None => {
                let out: Vec<String> = Vec::new();
                assert(out.deep_view() =~= Seq::empty());
                Ok(out)
            },
        }
    }

    /// The texts of the list under `key`, which must be there.
    pub fn need_text_list(&self, key: &str) -> (res: Result<Vec<String>, String>)
        ensures
            match res {
                Ok(v) => self@.need_text_list(key@) == Ok::<Seq<Seq<char>>, Seq<char>>(
                    v.deep_view(),
                ),
                Err(e) => self@.need_text_list(key@) == Err::<Seq<Seq<char>>, Seq<char>>(e@),
            },
    {
        if self.get(key).is_none() {
            Err(missing_text(key))
        } else {
            self.text_list(key)
        }
    }

    /// The pairs of the list under `key`; none, if there is no list.
    pub fn pair_list(&self, key: &str) -> (res: Result<Vec<(String, String)>, String>)
        ensures
            match res {
                Ok(v) => self@.pair_list(key@) == Ok::<Seq<(Seq<char>, Seq<char>)>, Seq<char>>(
                    v.deep_view(),
                ),
                Err(e) => self@.pair_list(key@) == Err::<Seq<(Seq<char>, Seq<char>)>, Seq<char>>(
                    e@,
                ),
            },
    {
        match self.get(key) {
            Some(Value::List(items)) => {
                let ghost trees = list_view(items@);
                let mut out: Vec<(String, String)> = Vec::new();
                let mut i: usize = 0;
                while i < items.len()
                    invariant
                        i <= items@.len(),
                        trees == list_view(items@),
                        self@.member(key@) == Some(Tree::List(trees)),
                        out@.len() == i,
                        forall|j: int| 0 <= j < i ==> is_pair(#[trigger] trees[j]),
                        forall|j: int|
                            0 <= j < i ==> (#[trigger] out@[j]).0@ == pair_of(trees[j]).0
                                && out@[j].1@ == pair_of(trees[j]).1,
                    decreases items.len() - i,
                {
                    assert(trees[i as int] == items@[i as int]@);
                    match items[i].as_pair() {
                        Some(pair) => {
                            out.push(pair);
                        },
                        None => {
                            assert(!is_pair(trees[i as int]));
                            return Err(wrong_kind_text(key, "a list of pairs of texts"));
                        },
                    }
                    i += 1;
                }
                assert forall|j: int| 0 <= j < out@.len() implies out.deep_view()[j]
                    == pair_of(trees[j]) by {
                    assert(out@[j].0@ == pair_of(trees[j]).0);
                }
                assert(out.deep_view() =~= Seq::new(trees.len(), |i: int| pair_of(trees[i])));
                Ok(out)
            },
            Some(_) => Err(wrong_kind_text(key, "a list of pairs of texts")),
            None => {
                let out: Vec<(String, String)> = Vec::new();
                assert(out.deep_view() =~= Seq::empty());
                Ok(out)
            },
        }
    }

    /// The pairs of the list under `key`, which must be there.
    pub fn need_pair_list(&self, key: &str) -> (res: Result<Vec<(String, String)>, String>)
        ensures
            match res {
                Ok(v) => self@.need_pair_list(key@) == Ok::<Seq<(Seq<char>, Seq<char>)>, Seq<char>>(
                    v.deep_view(),
                ),
                Err(e) => self@.need_pair_list(key@) == Err::<
                    Seq<(Seq<char>, Seq<char>)>,
                    Seq<char>,
                >(e@),
            },
    {
        if self.get(key).is_none() {
            Err(missing_text(key))
        } else {
            self.pair_list(key)
        }
    }

    /// The two texts of a pair.
    fn as_pair(&self) -> (res: Option<(String, String)>)
        ensures
            res is Some <==> is_pair(self@),
            res is Some ==> ((res->0).0@, (res->0).1@) == pair_of(self@),
    {
        match self {
            Value::List(items) => {
                if items.len() != 2 {
                    return None;
                }
                assert(list_view(items@)[0] == items@[0]@);
                assert(list_view(items@)[1] == items@[1]@);
                match (&items[0], &items[1]) {
                    (Value::Text(a), Value::Text(b)) => Some((a.clone(), b.clone())),
                    _ => None,
                }
            },
            _ => None,
        }
    }

    /// The texts of the table under `key`; none, if there is no table.
    pub fn text_table(&self, key: &str) -> (res: Result<TextMap, String>)
        ensures
            match res {
                Ok(m) => self@.text_table(key@) == Ok::<Map<Seq<char>, Seq<char>>, Seq<char>>(m@),
                Err(e) => self@.text_table(key@) == Err::<Map<Seq<char>, Seq<char>>, Seq<char>>(
                    e@,
                ),
            },
    {
        match self.get(key) {
            Some(Value::Table(members)) => {
                let ghost trees = table_view(members@);
                let mut out = TextMap::new();
                let mut i: usize = 0;
                assert(trees.take(0) =~= Seq::empty());
                while i < members.len()
                    invariant
                        i <= members@.len(),
                        trees == table_view(members@),
                        self@.member(key@) == Some(Tree::Table(trees)),
                        forall|j: int| 0 <= j < i ==> (#[trigger] trees[j]).value is Text,
                        out@ == text_pairs(trees.take(i as int)),
                    decreases members.len() - i,
                {
                    assert(trees[i as int] == members@[i as int]@);
                    match &members[i].value {
                        Value::Text(s) => {
                            out.insert(members[i].key.clone(), s.clone());
                        },
                        _ => {
                            assert(!(trees[i as int].value is Text));
                            return Err(wrong_kind_text(key, "a table of texts"));
                        },
                    }
                    assert(trees.take(i + 1).drop_last() =~= trees.take(i as int));
                    i += 1;
                }
                assert(trees.take(i as int) =~= trees);
                Ok(out)
            },
            Some(_) => Err(wrong_kind_text(key, "a table of texts")),
            None => Ok(TextMap::new()),
        }
    }

    /// The items of the list under `key`; none, if there is no list.
    pub fn items(&self, key: &str) -> (res: Result<Vec<Value>, String>)
        ensures
            match res {
                Ok(v) => self@.items(key@) == Ok::<Seq<Tree>, Seq<char>>(list_view(v@)),
                Err(e) => self@.items(key@) == Err::<Seq<Tree>, Seq<char>>(e@),
            },
    {
        match self.get(key) {
            Some(Value::List(items)) => Ok(clone_list(items)),
            Some(_) => Err(wrong_kind_text(key, "a list")),
            None => {
                let out: Vec<Value> = Vec::new();
                assert(list_view(out@) =~= Seq::empty());
                Ok(out)
            },
        }
    }
}

/// A copy of a list of values.
fn clone_list(items: &Vec<Value>) -> (res: Vec<Value>)
    ensures
        list_view(res@) == list_view(items@),
{
    let mut out: Vec<Value> = Vec::new();
    let mut i: usize = 0;
    while i < items.len()
        invariant
            i <= items@.len(),
            out@.len() == i,
            forall|j: int| 0 <= j < i ==> (#[trigger] out@[j])@ == items@[j]@,
        decreases items.len() - i,
    {
        out.push(items[i].clone());
        i += 1;
    }
    assert(list_view(out@) =~= list_view(items@));
    out
}

/// What `serde_json` reads from a text: the tree, or the reason why it is no JSON.
pub uninterp spec fn json_read(text: Seq<char>) -> Result<Tree, Seq<char>>;

/// What `toml` reads from a text, as `serde_json` writes it: a JSON text, or the reason why the
/// text is no TOML.
pub uninterp spec fn toml_as_json(text: Seq<char>) -> Result<Seq<char>, Seq<char>>;

/// `serde_json::from_str` into `serde_json::Value`, kind by kind; of members of the same name
/// the last one counts. Stated is that the outcome depends on the text alone, that a tree that
/// was written is read back, and that a blank text is refused.
#[verifier::external_body]
pub(crate) fn read_json(text: &str) -> (res: Result<Value, String>)
    ensures
        res is Ok <==> json_read(text@) is Ok,
        res is Ok ==> res->Ok_0@ == json_read(text@)->Ok_0,
        res is Err ==> res->Err_0@ == json_read(text@)->Err_0,
        forall|t: Tree|
            plain(t, 100) && text@ == #[trigger] json_written(t) ==> res is Ok && res->Ok_0@ == t,
        crate::text::blank(text@) ==> res is Err,
{
    let json = serde_json::from_str(text).map_err(|e| e.to_string())?;
    Ok(match json {
        Json::Null => Value::Null,
        Json::Bool(b) => Value::Bool(b),
        Json::Number(n) => n.as_i128().map_or(Value::Decimal(n.to_string()), Value::Integer),
        Json::String(s) => Value::Text(s),
        Json::Array(items) => Value::List(
            Result::from_iter(items.iter().map(|v| read_json(&v.to_string())))?,
        ),
        Json::Object(map) => Value::Table(
            Result::from_iter(map.into_iter().map(
                |(key, v)| read_json(&v.to_string()).map(|value| Member { key, value }),
            ))?,
        ),
    })
}

/// How `toml` writes what a JSON text stands for, or the reason why it does not.
pub uninterp spec fn json_as_toml(text: Seq<char>) -> Result<Seq<char>, Seq<char>>;

/// A list of tables, or a table: what TOML writes under a header of its own.
pub open spec fn is_block(t: Tree) -> bool {
    match t {
        Tree::List(items) => items.len() > 0 && forall|i: int|
            0 <= i < items.len() ==> (#[trigger] items[i]) is Table,
        Tree::Table(_) => true,
        _ => false,
    }
}

/// In every table, what is written under a header of its own stands last.
pub open spec fn blocks_last(t: Tree) -> bool
    decreases t,
{
    match t {
        Tree::List(items) => forall|i: int| 0 <= i < items.len() ==> blocks_last(#[trigger] items[i]),
        Tree::Table(members) => {
            &&& forall|i: int, j: int|
                0 <= i < j < members.len() && is_block((#[trigger] members[i]).value) ==> is_block(
                    (#[trigger] members[j]).value,
                )
            &&& forall|i: int| 0 <= i < members.len() ==> blocks_last((#[trigger] members[i]).value)
        },
        _ => true,
    }
}

/// The tree has what TOML has: no `Null`, and no integer beyond 64 bits with a sign.
pub open spec fn fits_toml(t: Tree) -> bool
    decreases t,
{
    match t {
        Tree::Null => false,
        Tree::Integer(n) => i64::MIN <= n <= i64::MAX,
        Tree::List(items) => forall|i: int| 0 <= i < items.len() ==> fits_toml(#[trigger] items[i]),
        Tree::Table(members) => forall|i: int|
            0 <= i < members.len() ==> fits_toml((#[trigger] members[i]).value),
        _ => true,
    }
}

/// A run of one quotation mark, longer than can be counted in a byte.
pub open spec fn is_long_quote(s: Seq<char>, mark: char, from: int) -> bool {
    &&& 0 <= from
    &&& from + 256 <= s.len()
    &&& forall|i: int| from <= i < from + 256 ==> #[trigger] s[i] == mark
}

/// The text has no quotation mark 256 times in a row.
pub open spec fn calm(s: Seq<char>) -> bool {
    forall|from: int|
        !(#[trigger] is_long_quote(s, '"', from)) && !is_long_quote(s, '\'', from)
}

/// No text in the tree has a quotation mark 256 times in a row.
pub open spec fn calm_texts(t: Tree) -> bool
    decreases t,
{
    match t {
        Tree::Text(s) => calm(s),
        Tree::List(items) => forall|i: int| 0 <= i < items.len() ==> calm_texts(#[trigger] items[i]),
        Tree::Table(members) => forall|i: int|
            0 <= i < members.len() ==> calm_texts((#[trigger] members[i]).value),
        _ => true,
    }
}

/// The tree can be given to `toml`: a table of at most 32 levels, whose texts are calm.
pub open spec fn can_be_tried(t: Tree) -> bool {
    t is Table && plain(t, 32) && calm_texts(t)
}

/// `toml::to_string` of the `serde_json::Value` that `serde_json::from_str` reads. Stated is that
/// the outcome depends on the text alone, and that it is a text exactly where the tree has what
/// TOML has. A quotation mark 256 times in a row is left out: `toml` counts such runs in a byte,
/// and panics where overflow is checked.
#[verifier::external_body]
fn json_to_toml(text: &str) -> (res: Result<String, String>)
    requires
        exists|t: Tree| can_be_tried(t) && text@ == #[trigger] json_written(t),
    ensures
        res is Ok <==> json_as_toml(text@) is Ok,
        res is Ok ==> res->Ok_0@ == json_as_toml(text@)->Ok_0,
        res is Err ==> res->Err_0@ == json_as_toml(text@)->Err_0,
        forall|t: Tree|
            can_be_tried(t) && text@ == #[trigger] json_written(t) ==> (res is Ok <==> fits_toml(t)),
{
    let json: Json = serde_json::from_str(text).map_err(|e| e.to_string())?;
    toml::to_string(&json).map_err(|e| e.to_string())
}

/// The TOML text of a tree, or the reason why it has none.
pub open spec fn toml_written(t: Tree) -> Result<Seq<char>, Seq<char>> {
    json_as_toml(json_written(t))
}

/// Writes a document as TOML. It has a text exactly where it has what TOML has.
pub(crate) fn write_toml(value: &Value) -> (res: Result<String, String>)
    requires
        can_be_tried(value@),
    ensures
        res is Ok <==> fits_toml(value@),
        res is Ok ==> toml_written(value@) == Ok::<Seq<char>, Seq<char>>(res->Ok_0@),
        res is Err ==> toml_written(value@) == Err::<Seq<char>, Seq<char>>(res->Err_0@),
{
    proof {
        plain_within(value@, 32, 100);
    }
    let json = write_json(value);
    json_to_toml(json.as_str())
}

/// `toml::from_str` into `serde_json::Value`, written with its `Display`. Stated is that the
/// outcome depends on the text alone, and that a tree that was written is read back, if in every
/// table what is written under a header of its own stands last.
#[verifier::external_body]
fn toml_to_json(text: &str) -> (res: Result<String, String>)
    ensures
        res is Ok <==> toml_as_json(text@) is Ok,
        res is Ok ==> res->Ok_0@ == toml_as_json(text@)->Ok_0,
        res is Err ==> res->Err_0@ == toml_as_json(text@)->Err_0,
        forall|t: Tree|
            can_be_tried(t) && blocks_last(t) && (#[trigger] toml_written(t)) is Ok && text@
                == toml_written(t)->Ok_0 ==> res is Ok && res->Ok_0@ == json_written(t),
{
    match toml::from_str::<Json>(text) {
        Ok(v) => Ok(v.to_string()),
        Err(e) => Err(e.to_string()),
    }
}

/// The tree of a TOML text, or the reason why it has none.
pub open spec fn toml_read(text: Seq<char>) -> Result<Tree, Seq<char>> {
    match toml_as_json(text) {
        Ok(json) => json_read(json),
        Err(e) => Err(e),
    }
}

/// Reads a TOML text.
pub(crate) fn read_toml(text: &str) -> (res: Result<Value, String>)
    ensures
        res is Ok <==> toml_read(text@) is Ok,
        res is Ok ==> res->Ok_0@ == toml_read(text@)->Ok_0,
        res is Err ==> res->Err_0@ == toml_read(text@)->Err_0,
        forall|t: Tree|
            can_be_tried(t) && blocks_last(t) && (#[trigger] toml_written(t)) is Ok && text@
                == toml_written(t)->Ok_0 ==> res is Ok && res->Ok_0@ == t,
{
    proof {
        assert forall|t: Tree|
            can_be_tried(t) && (#[trigger] toml_written(t)) is Ok implies plain(t, 100) by {
            plain_within(t, 32, 100);
        }
    }
    match toml_to_json(text) {
        Ok(json) => read_json(json.as_str()),
        Err(e) => Err(e),
    }
}

/// The values that `f` gives for the places below `len`, or the first reason why it gives none.
pub open spec fn collected<T>(len: nat, f: spec_fn(int) -> Result<T, Seq<char>>) -> Result<
    Seq<T>,
    Seq<char>,
> {
    match crate::text::first_problem(
        len as int,
        0,
        |i: int|
            match f(i) {
                Ok(_) => None,
                Err(e) => Some(e),
            },
    ) {
        Some(e) => Err(e),
        None => Ok(Seq::new(len, |i: int| f(i)->Ok_0)),
    }
}

/// The reason why there is no result.
pub open spec fn error_of<T>(r: Result<T, Seq<char>>) -> Option<Seq<char>> {
    match r {
        Ok(_) => None,
        Err(e) => Some(e),
    }
}

/// The first of two reasons.
pub open spec fn earlier(a: Option<Seq<char>>, b: Option<Seq<char>>) -> Option<Seq<char>> {
    if a is Some {
        a
    } else {
        b
    }
}

/// A type whose values documents can name.
pub trait Decode: View + Sized {
    /// What a document names, or the first reason why it names nothing of the type.
    spec fn decoded(t: Tree) -> Result<Self::V, Seq<char>>;

    /// Reads a value from a document.
    fn decode(doc: &Value) -> (res: Result<Self, String>)
        ensures
            res is Ok <==> Self::decoded(doc@) is Ok,
            res is Ok ==> Self::decoded(doc@)->Ok_0 == res->Ok_0@,
            res is Err ==> Self::decoded(doc@)->Err_0 == res->Err_0@,
    ;
}

/// What the items of the list under `key` name.
pub open spec fn decoded_list<T: Decode>(t: Tree, key: Seq<char>) -> Result<Seq<T::V>, Seq<char>> {
    match t.items(key) {
        Err(e) => Err(e),
        Ok(items) => collected(items.len(), |i: int| T::decoded(items[i])),
    }
}

/// Reads the items of the list under `key`.
pub fn decode_list<T: Decode>(doc: &Value, key: &str) -> (res: Result<Vec<T>, String>)
    ensures
        res is Ok <==> decoded_list::<T>(doc@, key@) is Ok,
        res is Ok ==> decoded_list::<T>(doc@, key@)->Ok_0 == crate::text::views(res->Ok_0@),
        res is Err ==> decoded_list::<T>(doc@, key@)->Err_0 == res->Err_0@,
{
    let items = match doc.items(key) {
        Ok(v) => v,
        Err(e) => return Err(e),
    };
    let ghost trees = list_view(items@);
    let ghost f = |i: int| T::decoded(trees[i]);
    let ghost g = |i: int|
        match f(i) {
            Ok(_) => None,
            Err(e) => Some(e),
        };
    let mut out: Vec<T> = Vec::new();
    let mut i: usize = 0;
    assert(crate::text::views(out@) =~= Seq::new(0, |j: int| f(j)->Ok_0));
    while i < items.len()
        invariant
            i <= items@.len(),
            trees == list_view(items@),
            doc@.items(key@) == Ok::<Seq<Tree>, Seq<char>>(trees),
            f == (|i: int| T::decoded(trees[i])),
            g == (|i: int|
                match f(i) {
                    Ok(_) => None,
                    Err(e) => Some(e),
                }),
            out@.len() == i,
            crate::text::views(out@) == Seq::new(i as nat, |j: int| f(j)->Ok_0),
            crate::text::first_problem(trees.len() as int, 0, g) == crate::text::first_problem(
                trees.len() as int,
                i as int,
                g,
            ),
        decreases items.len() - i,
    {
        assert(trees[i as int] == items@[i as int]@);
        match T::decode(&items[i]) {
            Ok(o) => {
                assert(g(i as int) is None);
                let ghost before = crate::text::views(out@);
                out.push(o);
                assert(crate::text::views(out@) =~= before.push(f(i as int)->Ok_0));
                assert(crate::text::views(out@) =~= Seq::new((i + 1) as nat, |j: int| f(j)->Ok_0));
            },
            Err(e) => {
                assert(g(i as int) == Some(e@));
                return Err(e);
            },
        }
        i += 1;
    }
    assert(crate::text::views(out@) =~= Seq::new(trees.len(), |i: int| f(i)->Ok_0));
    Ok(out)
}

/// No two members share a name.
pub open spec fn distinct_names(members: Seq<MemberTree>) -> bool {
    forall|i: int, j: int|
        0 <= i < j < members.len() ==> (#[trigger] members[i]).key != (#[trigger] members[j]).key
}

/// The tree can be written as JSON and read back: at most `depth` levels, integers of 64 bits,
/// no other numbers, and no name twice in a table.
pub open spec fn plain(t: Tree, depth: nat) -> bool
    decreases depth,
{
    &&& depth > 0
    &&& match t {
        Tree::Integer(n) => i64::MIN <= n <= u64::MAX,
        Tree::Decimal(_) => false,
        Tree::List(items) => forall|i: int|
            0 <= i < items.len() ==> plain(#[trigger] items[i], (depth - 1) as nat),
        Tree::Table(members) => distinct_names(members) && forall|i: int|
            0 <= i < members.len() ==> plain((#[trigger] members[i]).value, (depth - 1) as nat),
        _ => true,
    }
}

/// How `serde_json` writes a tree, without white space.
pub uninterp spec fn json_written(t: Tree) -> Seq<char>;

/// `Display` of `serde_json::Value`, kind by kind: compact JSON with the members of a table in
/// their order. Stated is that the text depends on the tree alone, and that no other tree that
/// can be written has the same text.
#[verifier::external_body]
pub(crate) fn write_json(value: &Value) -> (res: String)
    requires
        plain(value@, 100),
    ensures
        res@ == json_written(value@),
        forall|t: Tree| plain(t, 100) && res@ == #[trigger] json_written(t) ==> t == value@,
{
    let json: Json = match value {
        Value::Null => Json::Null,
        Value::Bool(b) => Json::Bool(*b),
        Value::Integer(n) => Number::from_i128(*n).into(),
        Value::Decimal(s) | Value::Text(s) => s.as_str().into(),
        Value::List(items) => items.iter().map(
            |v| write_json(v).parse::<Json>().unwrap(),
        ).collect(),
        Value::Table(members) => members.iter().map(
            |m| (m.key.clone(), write_json(&m.value).parse::<Json>().unwrap()),
        ).collect(),
    };
    json.to_string()
}

/// A tree within a depth is within any greater depth.
pub proof fn plain_within(t: Tree, depth: nat, more: nat)
    requires
        plain(t, depth),
        depth <= more,
    ensures
        plain(t, more),
    decreases depth,
{
    match t {
        Tree::List(items) => {
            assert forall|i: int| 0 <= i < items.len() implies plain(
                #[trigger] items[i],
                (more - 1) as nat,
            ) by {
                plain_within(items[i], (depth - 1) as nat, (more - 1) as nat);
            }
        },
        Tree::Table(members) => {
            assert forall|i: int| 0 <= i < members.len() implies plain(
                (#[trigger] members[i]).value,
                (more - 1) as nat,
            ) by {
                plain_within(members[i].value, (depth - 1) as nat, (more - 1) as nat);
            }
        },
        _ => {},
    }
}

/// A text, or nothing.
pub fn text_value(s: &Option<String>) -> (res: Value)
    ensures
        res@ == text_tree(s.deep_view()),
{
    match s {
        Some(s) => Value::Text(s.clone()),
        None => Value::Null,
    }
}

/// A number of 32 bits, or nothing.
pub open spec fn number_tree_32(n: Option<u32>) -> Tree {
    match n {
        Some(n) => Tree::Integer(n as int),
        None => Tree::Null,
    }
}

/// A number of 32 bits, or nothing.
pub fn number_value_32(n: Option<u32>) -> (res: Value)
    ensures
        res@ == number_tree_32(n),
{
    match n {
        Some(n) => Value::Integer(n as i128),
        None => Value::Null,
    }
}

/// A number of 64 bits, or nothing.
pub open spec fn number_tree_64(n: Option<u64>) -> Tree {
    match n {
        Some(n) => Tree::Integer(n as int),
        None => Tree::Null,
    }
}

/// A number of 64 bits, or nothing.
pub fn number_value_64(n: Option<u64>) -> (res: Value)
    ensures
        res@ == number_tree_64(n),
{
    match n {
        Some(n) => Value::Integer(n as i128),
        None => Value::Null,
    }
}

/// A table whose members are all allowed has no stranger.
pub proof fn no_stranger(members: Seq<MemberTree>, allowed: Seq<Seq<char>>, i: int)
    requires
        0 <= i <= members.len(),
        forall|j: int| 0 <= j < members.len() ==> allowed.contains((#[trigger] members[j]).key),
    ensures
        stranger(members, allowed, i) is None,
    decreases members.len() - i,
{
    if i < members.len() {
        no_stranger(members, allowed, i + 1);
    }
}

/// Texts under names.
pub open spec fn map_tree(keys: Seq<Seq<char>>, values: Seq<Seq<char>>) -> Tree {
    Tree::Table(Seq::new(keys.len(), |i: int| named(keys[i], Tree::Text(values[i]))))
}

/// Texts under names, the names ascending.
pub fn map_value(m: &TextMap) -> (res: Value)
    ensures
        res@ == map_tree(m.keys(), m.values()),
{
    let n: usize = m.len();
    let mut members: Vec<Member> = Vec::new();
    let mut i: usize = 0;
    while i < n
        invariant
            i <= n,
            n == m.keys().len(),
            n == m.values().len(),
            members@.len() == i,
            forall|j: int|
                0 <= j < i ==> (#[trigger] members@[j])@ == named(
                    m.keys()[j],
                    Tree::Text(m.values()[j]),
                ),
        decreases n - i,
    {
        members.push(member(m.key_at(i), Value::Text(m.value_at(i).to_owned())));
        i += 1;
    }
    assert(table_view(members@) =~= map_tree(m.keys(), m.values())->Table_0);
    Value::Table(members)
}

/// The members of a table of texts are the pairs of names and texts.
proof fn members_are_pairs(keys: Seq<Seq<char>>, values: Seq<Seq<char>>)
    requires
        keys.len() == values.len(),
    ensures
        text_pairs(map_tree(keys, values)->Table_0) == crate::text_map::pairs(keys, values),
    decreases keys.len(),
{
    let members = map_tree(keys, values)->Table_0;
    if keys.len() > 0 {
        members_are_pairs(keys.drop_last(), values.drop_last());
        assert(members.drop_last() =~= map_tree(keys.drop_last(), values.drop_last())->Table_0);
    }
}

/// Texts under names are read back.
pub proof fn map_is_read_back(
    t: Tree,
    key: Seq<char>,
    keys: Seq<Seq<char>>,
    values: Seq<Seq<char>>,
)
    requires
        t.member(key) == Some(map_tree(keys, values)),
        keys.len() == values.len(),
        forall|i: int, j: int| 0 <= i < j < keys.len() ==> keys[i] != keys[j],
    ensures
        t.text_table(key) == Ok::<Map<Seq<char>, Seq<char>>, Seq<char>>(
            crate::text_map::pairs(keys, values),
        ),
        plain(map_tree(keys, values), 2),
{
    members_are_pairs(keys, values);
    let members = map_tree(keys, values)->Table_0;
    assert(all_text_members(members));
    assert forall|i: int, j: int| 0 <= i < j < members.len() implies (#[trigger] members[i]).key
        != (#[trigger] members[j]).key by {
        assert(keys[i] != keys[j]);
    }
    assert forall|i: int| 0 <= i < members.len() implies plain(
        (#[trigger] members[i]).value,
        1,
    ) by {
    }
}

/// A list of texts.
pub open spec fn texts_tree(s: Seq<Seq<char>>) -> Tree {
    Tree::List(Seq::new(s.len(), |i: int| Tree::Text(s[i])))
}

/// A list of texts.
pub fn texts_value(v: &Vec<String>) -> (res: Value)
    ensures
        res@ == texts_tree(v.deep_view()),
{
    let mut items: Vec<Value> = Vec::new();
    let mut i: usize = 0;
    while i < v.len()
        invariant
            i <= v.len(),
            items@.len() == i,
            forall|j: int| 0 <= j < i ==> (#[trigger] items@[j])@ == Tree::Text(v@[j]@),
        decreases v.len() - i,
    {
        items.push(Value::Text(v[i].clone()));
        i += 1;
    }
    assert(list_view(items@) =~= texts_tree(v.deep_view())->List_0);
    Value::List(items)
}

/// A list of texts is read back.
pub proof fn texts_are_read_back(t: Tree, key: Seq<char>, s: Seq<Seq<char>>)
    requires
        t.member(key) == Some(texts_tree(s)),
    ensures
        t.text_list(key) == Ok::<Seq<Seq<char>>, Seq<char>>(s),
        t.need_text_list(key) == Ok::<Seq<Seq<char>>, Seq<char>>(s),
        plain(texts_tree(s), 2),
{
    let items = texts_tree(s)->List_0;
    assert(all_texts(items));
    assert(Seq::new(items.len(), |i: int| items[i]->Text_0) =~= s);
    assert forall|i: int| 0 <= i < items.len() implies plain(#[trigger] items[i], 1) by {
    }
}

/// A pair of texts.
pub open spec fn pair_tree(p: (Seq<char>, Seq<char>)) -> Tree {
    Tree::List(seq![Tree::Text(p.0), Tree::Text(p.1)])
}

/// A list of pairs of texts.
pub open spec fn pairs_tree(s: Seq<(Seq<char>, Seq<char>)>) -> Tree {
    Tree::List(Seq::new(s.len(), |i: int| pair_tree(s[i])))
}

/// A list of pairs of texts.
pub fn pairs_value(v: &Vec<(String, String)>) -> (res: Value)
    ensures
        res@ == pairs_tree(v.deep_view()),
{
    let mut items: Vec<Value> = Vec::new();
    let mut i: usize = 0;
    while i < v.len()
        invariant
            i <= v.len(),
            items@.len() == i,
            forall|j: int|
                0 <= j < i ==> (#[trigger] items@[j])@ == pair_tree((v@[j].0@, v@[j].1@)),
        decreases v.len() - i,
    {
        let mut pair: Vec<Value> = Vec::new();
        pair.push(Value::Text(v[i].0.clone()));
        pair.push(Value::Text(v[i].1.clone()));
        assert(list_view(pair@) =~= pair_tree((v@[i as int].0@, v@[i as int].1@))->List_0);
        items.push(Value::List(pair));
        i += 1;
    }
    assert(list_view(items@) =~= pairs_tree(v.deep_view())->List_0);
    Value::List(items)
}

/// A list of pairs is read back.
pub proof fn pairs_are_read_back(t: Tree, key: Seq<char>, s: Seq<(Seq<char>, Seq<char>)>)
    requires
        t.member(key) == Some(pairs_tree(s)),
    ensures
        t.pair_list(key) == Ok::<Seq<(Seq<char>, Seq<char>)>, Seq<char>>(s),
        t.need_pair_list(key) == Ok::<Seq<(Seq<char>, Seq<char>)>, Seq<char>>(s),
        plain(pairs_tree(s), 3),
{
    let items = pairs_tree(s)->List_0;
    assert forall|i: int| 0 <= i < items.len() implies is_pair(#[trigger] items[i]) && pair_of(
        items[i],
    ) == s[i] by {
    }
    assert(Seq::new(items.len(), |i: int| pair_of(items[i])) =~= s);
    assert forall|i: int| 0 <= i < items.len() implies plain(#[trigger] items[i], 2) by {
        let pair = items[i]->List_0;
        assert forall|j: int| 0 <= j < pair.len() implies plain(#[trigger] pair[j], 1) by {
        }
    }
}

/// A type whose values can be written as documents, and are read back from them.
pub trait Encode: Decode {
    /// The document of a value.
    spec fn tree(v: Self::V) -> Tree;

    /// How deep the documents of the type are.
    spec fn depth() -> nat;

    /// The document of a value.
    fn encode(&self) -> (res: Value)
        ensures
            res@ == Self::tree(self@),
    ;

    /// What is written is read back.
    proof fn is_read_back(v: Self::V)
        ensures
            plain(Self::tree(v), Self::depth()),
            Self::decoded(Self::tree(v)) == Ok::<Self::V, Seq<char>>(v),
    ;
}

/// The documents of values, as a list.
pub open spec fn list_tree<T: Encode>(v: Seq<T::V>) -> Tree {
    Tree::List(Seq::new(v.len(), |i: int| T::tree(v[i])))
}

/// The documents of values, as a list.
pub fn encode_list<T: Encode>(v: &Vec<T>) -> (res: Value)
    ensures
        res@ == list_tree::<T>(crate::text::views(v@)),
{
    let mut items: Vec<Value> = Vec::new();
    let mut i: usize = 0;
    while i < v.len()
        invariant
            i <= v.len(),
            items@.len() == i,
            forall|j: int| 0 <= j < i ==> (#[trigger] items@[j])@ == T::tree(v@[j]@),
        decreases v.len() - i,
    {
        items.push(v[i].encode());
        i += 1;
    }
    assert(list_view(items@) =~= list_tree::<T>(crate::text::views(v@))->List_0);
    Value::List(items)
}

/// A list is read item by item.
pub proof fn items_are_read_back<T: Decode>(
    t: Tree,
    key: Seq<char>,
    items: Seq<Tree>,
    v: Seq<T::V>,
)
    requires
        t.member(key) == Some(Tree::List(items)),
        items.len() == v.len(),
        forall|i: int|
            0 <= i < items.len() ==> T::decoded(#[trigger] items[i]) == Ok::<T::V, Seq<char>>(v[i]),
    ensures
        decoded_list::<T>(t, key) == Ok::<Seq<T::V>, Seq<char>>(v),
{
    let f = |i: int| T::decoded(items[i]);
    let g = |i: int|
        match f(i) {
            Ok(_) => None,
            Err(e) => Some(e),
        };
    assert forall|i: int| 0 <= i < items.len() implies #[trigger] f(i) == Ok::<T::V, Seq<char>>(
        v[i],
    ) by {
        assert(T::decoded(items[i]) == Ok::<T::V, Seq<char>>(v[i]));
    }
    assert forall|i: int| 0 <= i < items.len() implies #[trigger] g(i) is None by {
        assert(f(i) is Ok);
    }
    crate::text::first_problem_spec(items.len() as int, 0, g);
    assert(Seq::new(items.len(), |i: int| f(i)->Ok_0) =~= v);
}

/// A list of values is read back.
pub proof fn list_is_read_back<T: Encode>(t: Tree, key: Seq<char>, v: Seq<T::V>)
    requires
        t.member(key) == Some(list_tree::<T>(v)),
    ensures
        decoded_list::<T>(t, key) == Ok::<Seq<T::V>, Seq<char>>(v),
        plain(list_tree::<T>(v), T::depth() + 1),
{
    let items = list_tree::<T>(v)->List_0;
    assert forall|i: int| 0 <= i < items.len() implies T::decoded(#[trigger] items[i]) == Ok::<
        T::V,
        Seq<char>,
    >(v[i]) && plain(items[i], T::depth()) by {
        T::is_read_back(v[i]);
    }
    items_are_read_back::<T>(t, key, items, v);
}

/// The members that have something under their name.
pub open spec fn present(members: Seq<MemberTree>) -> Seq<MemberTree>
    decreases members.len(),
{
    if members.len() == 0 {
        Seq::empty()
    } else if members.last().value is Null {
        present(members.drop_last())
    } else {
        present(members.drop_last()).push(members.last())
    }
}

/// The members that have something under their name.
pub fn present_members(members: &Vec<Member>) -> (res: Vec<Member>)
    ensures
        table_view(res@) == present(table_view(members@)),
{
    let ghost all = table_view(members@);
    let mut out: Vec<Member> = Vec::new();
    let mut i: usize = 0;
    assert(all.take(0) =~= Seq::empty());
    assert(table_view(out@) =~= Seq::empty());
    while i < members.len()
        invariant
            i <= members.len(),
            all == table_view(members@),
            table_view(out@) == present(all.take(i as int)),
        decreases members.len() - i,
    {
        let m = &members[i];
        let ghost next = all.take(i + 1);
        assert(next.drop_last() =~= all.take(i as int));
        assert(next.last() == m@);
        let absent = match m.value {
            Value::Null => true,
            _ => false,
        };
        if !absent {
            let ghost before = table_view(out@);
            out.push(Member { key: m.key.clone(), value: m.value.clone() });
            assert(table_view(out@) =~= before.push(m@));
        }
        i += 1;
    }
    assert(all.take(i as int) =~= all);
    out
}

/// A list of texts is nothing that TOML writes under a header of its own.
pub proof fn texts_fit_toml(v: Seq<Seq<char>>)
    ensures
        fits_toml(texts_tree(v)),
        blocks_last(texts_tree(v)),
        !is_block(texts_tree(v)),
{
    let items = texts_tree(v)->List_0;
    assert forall|i: int| 0 <= i < items.len() implies fits_toml(
        #[trigger] items[i],
    ) && blocks_last(items[i]) by {
    }
    if items.len() > 0 {
        assert(!(items[0] is Table));
    }
}

/// Texts under names have what TOML has.
pub proof fn map_fits_toml(keys: Seq<Seq<char>>, values: Seq<Seq<char>>)
    ensures
        fits_toml(map_tree(keys, values)),
        blocks_last(map_tree(keys, values)),
{
    let members = map_tree(keys, values)->Table_0;
    assert forall|i: int| 0 <= i < members.len() implies fits_toml(
        (#[trigger] members[i]).value,
    ) && blocks_last(members[i].value) && !is_block(
        members[i].value,
    ) by {
    }
}

/// Every member that is present is one of the members and has something under its name, and the
/// other way round; `places` tells where.
proof fn present_places(members: Seq<MemberTree>) -> (places: Seq<int>)
    ensures
        places.len() == present(members).len(),
        forall|j: int|
            0 <= j < places.len() ==> 0 <= #[trigger] places[j] < members.len() && present(members)[j]
                == members[places[j]] && !(members[places[j]].value is Null),
        forall|j: int, k: int|
            0 <= j < k < places.len() ==> #[trigger] places[j] < #[trigger] places[k],
        forall|i: int|
            0 <= i < members.len() && !((#[trigger] members[i]).value is Null) ==> places.contains(i),
    decreases members.len(),
{
    if members.len() == 0 {
        Seq::empty()
    } else {
        let init = members.drop_last();
        let before = present_places(init);
        if members.last().value is Null {
            assert forall|i: int|
                0 <= i < members.len() && !((#[trigger] members[i]).value is Null) implies before.contains(
                i,
            ) by {
                assert(init[i] == members[i]);
            }
            before
        } else {
            let last = members.len() - 1;
            let places = before.push(last);
            assert forall|i: int|
                0 <= i < members.len() && !((#[trigger] members[i]).value is Null) implies places.contains(
                i,
            ) by {
                if i < last {
                    assert(init[i] == members[i]);
                    let j = choose|j: int| 0 <= j < before.len() && before[j] == i;
                    assert(places[j] == i);
                } else {
                    assert(places[before.len() as int] == i);
                }
            }
            places
        }
    }
}

/// What is known of members is known of those that are present: a name has the value that it had,
/// unless that was nothing.
pub proof fn present_keeps(members: Seq<MemberTree>, depth: nat)
    requires
        distinct_names(members),
    ensures
        distinct_names(present(members)),
        forall|key: Seq<char>| #[trigger]
            named_value(present(members), key) == (match named_value(members, key) {
                Some(v) => if v is Null {
                    None
                } else {
                    Some(v)
                },
                None => None,
            }),
        (forall|i: int| 0 <= i < members.len() ==> plain((#[trigger] members[i]).value, depth))
            ==> plain(Tree::Table(present(members)), depth + 1),
        (forall|i: int|
            0 <= i < members.len() && !((#[trigger] members[i]).value is Null) ==> fits_toml(
                members[i].value,
            )) ==> fits_toml(Tree::Table(present(members))),
        (forall|i: int|
            0 <= i < members.len() ==> blocks_last((#[trigger] members[i]).value)) && (forall|
            i: int,
            j: int,
        |
            0 <= i < j < members.len() && is_block((#[trigger] members[i]).value) ==> is_block(
                (#[trigger] members[j]).value,
            ) || members[j].value is Null) ==> blocks_last(Tree::Table(present(members))),
{
    let kept = present(members);
    let places = present_places(members);
    assert forall|j: int, k: int| 0 <= j < k < kept.len() implies (#[trigger] kept[j]).key != (
    #[trigger] kept[k]).key by {
        assert(places[j] < places[k]);
        assert(members[places[j]].key != members[places[k]].key);
    }
    assert forall|key: Seq<char>| #[trigger]
        named_value(kept, key) == (match named_value(members, key) {
            Some(v) => if v is Null {
                None
            } else {
                Some(v)
            },
            None => None,
        }) by {
        present_value(members, places, key);
    }
    if forall|i: int| 0 <= i < members.len() ==> plain((#[trigger] members[i]).value, depth) {
        assert forall|j: int| 0 <= j < kept.len() implies plain((#[trigger] kept[j]).value, depth) by {
            assert(kept[j] == members[places[j]]);
        }
    }
    if forall|i: int|
        0 <= i < members.len() && !((#[trigger] members[i]).value is Null) ==> fits_toml(
            members[i].value,
        ) {
        assert forall|j: int| 0 <= j < kept.len() implies fits_toml((#[trigger] kept[j]).value) by {
            assert(kept[j] == members[places[j]]);
        }
    }
    if (forall|i: int| 0 <= i < members.len() ==> blocks_last((#[trigger] members[i]).value)) && (
    forall|i: int, j: int|
        0 <= i < j < members.len() && is_block((#[trigger] members[i]).value) ==> is_block(
            (#[trigger] members[j]).value,
        ) || members[j].value is Null) {
        assert forall|j: int| 0 <= j < kept.len() implies blocks_last((#[trigger] kept[j]).value) by {
            assert(kept[j] == members[places[j]]);
        }
        assert forall|j: int, k: int|
            0 <= j < k < kept.len() && is_block((#[trigger] kept[j]).value) implies is_block(
            (#[trigger] kept[k]).value,
        ) by {
            assert(places[j] < places[k]);
            assert(kept[j] == members[places[j]] && kept[k] == members[places[k]]);
        }
    }
}

/// A name has, among the members that are present, the value that it had.
proof fn present_value(members: Seq<MemberTree>, places: Seq<int>, key: Seq<char>)
    requires
        distinct_names(members),
        distinct_names(present(members)),
        places.len() == present(members).len(),
        forall|j: int|
            0 <= j < places.len() ==> 0 <= #[trigger] places[j] < members.len() && present(members)[j]
                == members[places[j]] && !(members[places[j]].value is Null),
        forall|i: int|
            0 <= i < members.len() && !((#[trigger] members[i]).value is Null) ==> places.contains(i),
    ensures
        named_value(present(members), key) == (match named_value(members, key) {
            Some(v) => if v is Null {
                None
            } else {
                Some(v)
            },
            None => None,
        }),
{
    let kept = present(members);
    if exists|j: int| names_first(kept, key, j) {
        let j = choose|j: int| names_first(kept, key, j);
        assert(kept[j] == members[places[j]]);
        distinct_member_is_found(members, places[j]);
    } else if exists|i: int| names_first(members, key, i) {
        let i = choose|i: int| names_first(members, key, i);
        distinct_member_is_found(members, i);
        if !(members[i].value is Null) {
            let j = choose|j: int| 0 <= j < places.len() && places[j] == i;
            assert(kept[j] == members[i]);
            no_first_place_no_name(kept, key, j);
        }
    }
}

/// No member that is present has a name that is not allowed.
pub proof fn present_has_no_stranger(members: Seq<MemberTree>, allowed: Seq<Seq<char>>)
    requires
        forall|i: int| 0 <= i < members.len() ==> allowed.contains((#[trigger] members[i]).key),
    ensures
        stranger(present(members), allowed, 0) is None,
{
    let kept = present(members);
    let places = present_places(members);
    assert forall|j: int| 0 <= j < kept.len() implies allowed.contains((#[trigger] kept[j]).key) by {
        assert(kept[j] == members[places[j]]);
    }
    no_stranger(kept, allowed, 0);
}

/// Bytes, as a list of numbers.
pub open spec fn bytes_tree(s: Seq<u8>) -> Tree {
    Tree::List(Seq::new(s.len(), |i: int| Tree::Integer(s[i] as int)))
}

/// Bytes, as a list of numbers.
pub fn bytes_value(v: &Vec<u8>) -> (res: Value)
    ensures
        res@ == bytes_tree(v@),
{
    let mut items: Vec<Value> = Vec::new();
    let mut i: usize = 0;
    while i < v.len()
        invariant
            i <= v.len(),
            items@.len() == i,
            forall|j: int| 0 <= j < i ==> (#[trigger] items@[j])@ == Tree::Integer(v@[j] as int),
        decreases v.len() - i,
    {
        items.push(Value::Integer(v[i] as i128));
        i += 1;
    }
    assert(list_view(items@) =~= bytes_tree(v@)->List_0);
    Value::List(items)
}

/// Bytes are read back.
pub proof fn bytes_are_read_back(t: Tree, key: Seq<char>, s: Seq<u8>)
    requires
        t.member(key) == Some(bytes_tree(s)),
    ensures
        t.need_bytes(key) == Ok::<Seq<u8>, Seq<char>>(s),
        plain(bytes_tree(s), 2),
{
    let items = bytes_tree(s)->List_0;
    assert(all_bytes(items));
    assert(Seq::new(items.len(), |i: int| items[i]->Integer_0 as u8) =~= s);
    assert forall|i: int| 0 <= i < items.len() implies plain(#[trigger] items[i], 1) by {
    }
}

/// What a JSON text names, or the reason why it names nothing of the type.
pub open spec fn decoded_json<T: Decode>(text: Seq<char>) -> Result<T::V, Seq<char>> {
    match json_read(text) {
        Ok(t) => T::decoded(t),
        Err(e) => Err(e),
    }
}

/// Writes a value as JSON.
pub fn to_json<T: Encode>(v: &T) -> (res: String)
    requires
        T::depth() <= 100,
    ensures
        res@ == json_written(T::tree(v@)),
{
    let doc = v.encode();
    proof {
        T::is_read_back(v@);
        plain_within(T::tree(v@), T::depth(), 100);
    }
    write_json(&doc)
}

/// Reads a value from JSON. What was written is read back. Of a name that is repeated, the last
/// value counts.
pub fn from_json<T: Encode>(text: &str) -> (res: Result<T, String>)
    requires
        T::depth() <= 100,
    ensures
        res is Ok <==> decoded_json::<T>(text@) is Ok,
        res is Ok ==> decoded_json::<T>(text@)->Ok_0 == res->Ok_0@,
        res is Err ==> decoded_json::<T>(text@)->Err_0 == res->Err_0@,
        forall|v: T::V|
            text@ == json_written(#[trigger] T::tree(v)) ==> res is Ok && res->Ok_0@ == v,
{
    let read = read_json(text);
    proof {
        assert forall|v: T::V| text@ == json_written(#[trigger] T::tree(v)) implies decoded_json::<
            T,
        >(text@) == Ok::<T::V, Seq<char>>(v) by {
            T::is_read_back(v);
            plain_within(T::tree(v), T::depth(), 100);
        }
    }
    match read {
        Ok(doc) => T::decode(&doc),
        Err(e) => Err(e),
    }
}

/// Under `key` stands the text `s`; where `s` is none, nothing does, or `Null`.
pub open spec fn says(t: Tree, key: Seq<char>, s: Option<Seq<char>>) -> bool {
    match s {
        Some(s) => t.member(key) == Some(Tree::Text(s)),
        None => t.member(key) is None || t.member(key) == Some(Tree::Null),
    }
}

/// Under `key` stands the list of the texts `s`; where `s` is empty, nothing may stand there.
pub open spec fn says_texts(t: Tree, key: Seq<char>, s: Seq<Seq<char>>) -> bool {
    match t.member(key) {
        None => s.len() == 0,
        Some(sub) => sub is List && sub->List_0.len() == s.len() && forall|i: int|
            0 <= i < s.len() ==> #[trigger] sub->List_0[i] == Tree::Text(s[i]),
    }
}

/// Under `key` stands the text `s`; where `s` is empty, nothing may stand there.
pub open spec fn says_or_nothing(t: Tree, key: Seq<char>, s: Seq<char>) -> bool {
    t.member(key) == Some(Tree::Text(s)) || (t.member(key) is None && s.len() == 0)
}

/// Under `key` stands the truth value `b`; where `b` is false, nothing may stand there.
pub open spec fn says_flag(t: Tree, key: Seq<char>, b: bool) -> bool {
    t.member(key) == Some(Tree::Bool(b)) || (t.member(key) is None && !b)
}

/// Under `key` stands the number `n`; where `n` is none, nothing does, or `Null`.
pub open spec fn says_number(t: Tree, key: Seq<char>, n: Option<int>) -> bool {
    match n {
        Some(n) => t.member(key) == Some(Tree::Integer(n)),
        None => t.member(key) is None || t.member(key) == Some(Tree::Null),
    }
}

/// Under `key` stands the number `n`; where `n` is zero, nothing may stand there.
pub open spec fn says_count(t: Tree, key: Seq<char>, n: int) -> bool {
    t.member(key) == Some(Tree::Integer(n)) || (t.member(key) is None && n == 0)
}

/// Under `key` stands the list of the pairs `s`; where `s` is empty, nothing may stand there.
pub open spec fn says_pairs(t: Tree, key: Seq<char>, s: Seq<(Seq<char>, Seq<char>)>) -> bool {
    match t.member(key) {
        None => s.len() == 0,
        Some(sub) => sub is List && sub->List_0.len() == s.len() && forall|i: int|
            0 <= i < s.len() ==> #[trigger] sub->List_0[i] == Tree::List(
                seq![Tree::Text(s[i].0), Tree::Text(s[i].1)],
            ),
    }
}

/// The table has no names but `allowed` ones.
pub open spec fn names_only(t: Tree, allowed: Seq<Seq<char>>) -> bool {
    t is Table && forall|i: int|
        0 <= i < t->Table_0.len() ==> allowed.contains((#[trigger] t->Table_0[i]).key)
}

/// A list of texts is read as its texts, each in its place, and nothing else is.
pub proof fn texts_are_read_in_place(t: Tree, key: Seq<char>, s: Seq<Seq<char>>)
    ensures
        t.text_list(key) == Ok::<Seq<Seq<char>>, Seq<char>>(s) <==> says_texts(t, key, s),
        t.need_text_list(key) == Ok::<Seq<Seq<char>>, Seq<char>>(s) <==> says_texts(t, key, s)
            && t.member(key) is Some,
{
    if t.member(key) is Some && t.member(key)->0 is List {
        let items = t.member(key)->0->List_0;
        if says_texts(t, key, s) {
            assert(all_texts(items));
            assert(Seq::new(items.len(), |i: int| items[i]->Text_0) =~= s);
        }
        if t.text_list(key) == Ok::<Seq<Seq<char>>, Seq<char>>(s) {
            assert forall|i: int| 0 <= i < s.len() implies #[trigger] items[i]
                == Tree::Text(s[i]) by {
                assert(items[i] is Text);
            }
        }
    } else if t.member(key) is None && s.len() == 0 {
        assert(s =~= Seq::empty());
    }
}

/// A list of pairs is read as its pairs, each in its place, and nothing else is.
pub proof fn pairs_are_read_in_place(t: Tree, key: Seq<char>, s: Seq<(Seq<char>, Seq<char>)>)
    ensures
        t.pair_list(key) == Ok::<Seq<(Seq<char>, Seq<char>)>, Seq<char>>(s) <==> says_pairs(
            t,
            key,
            s,
        ),
        t.need_pair_list(key) == Ok::<Seq<(Seq<char>, Seq<char>)>, Seq<char>>(s) <==> says_pairs(
            t,
            key,
            s,
        ) && t.member(key) is Some,
{
    if t.member(key) is Some && t.member(key)->0 is List {
        let items = t.member(key)->0->List_0;
        if says_pairs(t, key, s) {
            assert forall|i: int| 0 <= i < items.len() implies is_pair(#[trigger] items[i])
                && pair_of(items[i]) == s[i] by {
            }
            assert(Seq::new(items.len(), |i: int| pair_of(items[i])) =~= s);
        }
        if t.pair_list(key) == Ok::<Seq<(Seq<char>, Seq<char>)>, Seq<char>>(s) {
            assert forall|i: int| 0 <= i < s.len() implies #[trigger] items[i] == Tree::List(
                seq![Tree::Text(s[i].0), Tree::Text(s[i].1)],
            ) by {
                assert(is_pair(items[i]));
                assert(s[i] == pair_of(items[i]));
                assert(items[i]->List_0 =~= seq![Tree::Text(s[i].0), Tree::Text(s[i].1)]);
            }
        }
    } else if t.member(key) is None && s.len() == 0 {
        assert(s =~= Seq::empty());
    }
}

/// A table of texts is read as the map from its names to their texts; a name that stands twice has
/// the later text.
pub proof fn text_tables_are_read_by_name(members: Seq<MemberTree>, i: int, key: Seq<char>)
    ensures
        0 <= i < members.len() && (forall|j: int|
            i < j < members.len() ==> (#[trigger] members[j]).key != members[i].key) ==> text_pairs(
            members,
        ).contains_key(members[i].key) && text_pairs(members)[members[i].key]
            == members[i].value->Text_0,
        (forall|j: int| 0 <= j < members.len() ==> (#[trigger] members[j]).key != key)
            ==> !text_pairs(members).contains_key(key),
    decreases members.len(),
{
    if members.len() > 0 {
        let init = members.drop_last();
        let last = members.len() - 1;
        text_tables_are_read_by_name(init, i, key);
        assert(members[last] == members.last());
        assert(forall|j: int| 0 <= j < init.len() ==> #[trigger] init[j] == members[j]);
    }
}

/// A table has no stranger exactly if it has no names but the allowed ones.
pub proof fn strangers_are_refused(t: Tree, what: Seq<char>, allowed: Seq<Seq<char>>)
    ensures
        t.table_of(what, allowed) is Ok <==> names_only(t, allowed),
{
    if t is Table {
        no_stranger_no_name(t->Table_0, allowed, 0);
    }
}

/// From place `i` on there is no stranger exactly if every name is allowed.
proof fn no_stranger_no_name(members: Seq<MemberTree>, allowed: Seq<Seq<char>>, i: int)
    requires
        0 <= i <= members.len(),
    ensures
        stranger(members, allowed, i) is None <==> forall|j: int|
            i <= j < members.len() ==> allowed.contains((#[trigger] members[j]).key),
    decreases members.len() - i,
{
    if i < members.len() {
        no_stranger_no_name(members, allowed, i + 1);
    }
}

/// A list is read as the values of its items, each in its place; it is not read where one of its
/// items is not.
pub proof fn lists_are_read_in_place<T: Decode>(t: Tree, key: Seq<char>, v: Seq<T::V>)
    ensures
        decoded_list::<T>(t, key) == Ok::<Seq<T::V>, Seq<char>>(v) <==> (match t.member(key) {
            None => v.len() == 0,
            Some(sub) => sub is List && sub->List_0.len() == v.len() && forall|i: int|
                0 <= i < v.len() ==> T::decoded(#[trigger] sub->List_0[i]) == Ok::<T::V, Seq<char>>(
                    v[i],
                ),
        }),
{
    if t.items(key) is Ok {
        let items = t.items(key)->Ok_0;
        let f = |i: int| T::decoded(items[i]);
        let g = |i: int|
            match f(i) {
                Ok(_) => None,
                Err(e) => Some(e),
            };
        crate::text::first_problem_spec(items.len() as int, 0, g);
        let all = Seq::new(items.len(), |i: int| f(i)->Ok_0);
        if decoded_list::<T>(t, key) is Ok {
            assert forall|i: int| 0 <= i < items.len() implies T::decoded(#[trigger] items[i])
                == Ok::<T::V, Seq<char>>(all[i]) by {
                assert(g(i) is None);
            }
            assert(decoded_list::<T>(t, key)->Ok_0 =~= all);
        }
        if items.len() == v.len() && (forall|i: int|
            0 <= i < v.len() ==> T::decoded(#[trigger] items[i]) == Ok::<T::V, Seq<char>>(v[i])) {
            assert forall|i: int| 0 <= i < items.len() implies #[trigger] g(i) is None by {
                assert(T::decoded(items[i]) is Ok);
            }
            assert(all =~= v);
        }
    }
}

/// A list of values in the order of names is the table with these values under these names; a
/// table is itself.
pub proof fn lists_stand_for_tables(items: Seq<Tree>, names: Seq<Seq<char>>, least: nat, t: Tree)
    ensures
        t is Table ==> t.in_order(names, least) == t,
        least <= items.len() <= names.len() ==> ({
            let table = Tree::List(items).in_order(names, least);
            &&& table is Table
            &&& table->Table_0.len() == items.len()
            &&& forall|i: int|
                0 <= i < items.len() ==> (#[trigger] table->Table_0[i]).key == names[i]
                    && table->Table_0[i].value == items[i]
        }),
        items.len() < least || items.len() > names.len() ==> Tree::List(items).in_order(
            names,
            least,
        ) == Tree::List(items),
{
}

/// A bare name is a text, or the one name of a table with nothing under it; nothing else is.
pub proof fn bare_names(t: Tree, s: Seq<char>)
    ensures
        t.bare_name() == Some(s) <==> t == Tree::Text(s) || (t is Table && t->Table_0 == seq![
            MemberTree { key: s, value: Tree::Null },
        ]),
{
    if t is Table && t->Table_0.len() == 1 {
        assert(t->Table_0 =~= seq![t->Table_0[0]]);
    }
}

/// Under `key` stands the list of the bytes `s`.
pub open spec fn says_bytes(t: Tree, key: Seq<char>, s: Seq<u8>) -> bool {
    &&& t.member(key) is Some
    &&& t.member(key)->0 is List
    &&& t.member(key)->0->List_0.len() == s.len()
    &&& forall|i: int|
        0 <= i < s.len() ==> #[trigger] t.member(key)->0->List_0[i] == Tree::Integer(s[i] as int)
}

/// A list of numbers is read as its bytes, each in its place, and nothing else is.
pub proof fn bytes_are_read_in_place(t: Tree, key: Seq<char>, s: Seq<u8>)
    ensures
        t.need_bytes(key) == Ok::<Seq<u8>, Seq<char>>(s) <==> says_bytes(t, key, s),
{
    if t.member(key) is Some && t.member(key)->0 is List {
        let items = t.member(key)->0->List_0;
        if says_bytes(t, key, s) {
            assert(all_bytes(items));
            assert(Seq::new(items.len(), |i: int| items[i]->Integer_0 as u8) =~= s);
        }
        if t.need_bytes(key) == Ok::<Seq<u8>, Seq<char>>(s) {
            assert forall|i: int| 0 <= i < s.len() implies #[trigger] items[i] == Tree::Integer(
                s[i] as int,
            ) by {
                assert(items[i] is Integer);
            }
        }
    }
}

/// A text, a number or a truth value is read from a member of its own kind, and from no other.
/// Nothing under the name is no fault where the value may be absent; `Null` counts as absent for
/// numbers, and for texts where it is asked for.
pub proof fn values_are_read_by_kind(t: Tree, key: Seq<char>, other: Tree)
    requires
        t.member(key) == Some(other),
    ensures
        t.need_text(key) is Ok <==> other is Text,
        other is Text ==> t.need_text(key) == Ok::<Seq<char>, Seq<char>>(other->Text_0),
        t.text_or_empty(key) == t.need_text(key),
        t.opt_text(key, false) is Ok <==> other is Text,
        t.opt_text(key, true) is Ok <==> other is Text || other is Null,
        other is Text ==> t.opt_text(key, false) == Ok::<Option<Seq<char>>, Seq<char>>(
            Some(other->Text_0),
        ) && t.opt_text(key, true) == t.opt_text(key, false),
        other is Null ==> t.opt_text(key, true) == Ok::<Option<Seq<char>>, Seq<char>>(None),
        t.flag(key) is Ok <==> other is Bool,
        other is Bool ==> t.flag(key) == Ok::<bool, Seq<char>>(other->Bool_0),
        t.need_u32(key) is Ok <==> other is Integer && 0 <= other->Integer_0 < 0x1_0000_0000,
        t.need_u32(key) is Ok ==> t.need_u32(key)->Ok_0 == other->Integer_0,
        t.opt_u32(key) is Ok <==> other is Null || t.need_u32(key) is Ok,
        t.opt_u32(key) is Ok ==> t.opt_u32(key)->Ok_0 is Some == (other is Integer),
        other is Integer && t.opt_u32(key) is Ok ==> t.opt_u32(key)->Ok_0->0 == other->Integer_0,
        t.opt_u64(key) is Ok <==> other is Null || other is Integer && 0 <= other->Integer_0
            < 0x1_0000_0000_0000_0000,
        t.opt_u64(key) is Ok ==> t.opt_u64(key)->Ok_0 is Some == (other is Integer),
        other is Integer && t.opt_u64(key) is Ok ==> t.opt_u64(key)->Ok_0->0 == other->Integer_0,
{
}

/// What is absent is no text, no number, false, an empty text or an empty list, where it may be
/// absent, and a fault that names it where it may not.
pub proof fn absent_values_have_defaults(t: Tree, key: Seq<char>, nullable: bool)
    requires
        t.member(key) is None,
    ensures
        t.opt_text(key, nullable) == Ok::<Option<Seq<char>>, Seq<char>>(None),
        t.text_or_empty(key) == Ok::<Seq<char>, Seq<char>>(Seq::empty()),
        t.flag(key) == Ok::<bool, Seq<char>>(false),
        t.opt_u32(key) == Ok::<Option<u32>, Seq<char>>(None),
        t.opt_u64(key) == Ok::<Option<u64>, Seq<char>>(None),
        t.text_list(key) == Ok::<Seq<Seq<char>>, Seq<char>>(Seq::empty()),
        t.pair_list(key) == Ok::<Seq<(Seq<char>, Seq<char>)>, Seq<char>>(Seq::empty()),
        t.text_table(key) == Ok::<Map<Seq<char>, Seq<char>>, Seq<char>>(Map::empty()),
        t.items(key) == Ok::<Seq<Tree>, Seq<char>>(Seq::empty()),
        ({
            let fault = "missing field `"@ + key + "`"@;
            &&& t.need_name(key) == Err::<Seq<char>, Seq<char>>(fault)
            &&& t.need_text(key) == Err::<Seq<char>, Seq<char>>(fault)
            &&& t.need_u32(key) == Err::<u32, Seq<char>>(fault)
            &&& t.need_bytes(key) == Err::<Seq<u8>, Seq<char>>(fault)
            &&& t.need_text_list(key) == Err::<Seq<Seq<char>>, Seq<char>>(fault)
            &&& t.need_pair_list(key) == Err::<Seq<(Seq<char>, Seq<char>)>, Seq<char>>(fault)
        }),
{
}

/// A fault in a member names the member and the kind that it should have been.
pub proof fn faults_name_the_kind(t: Tree, key: Seq<char>, nullable: bool)
    requires
        t.member(key) is Some,
    ensures
        ({
            let lead = "`"@ + key + "` must be "@;
            &&& t.need_name(key) is Err ==> t.need_name(key)->Err_0 == lead + "a name"@
            &&& t.need_text(key) is Err ==> t.need_text(key)->Err_0 == lead + "a text"@
            &&& t.opt_text(key, nullable) is Err ==> t.opt_text(key, nullable)->Err_0 == lead
                + "a text"@
            &&& t.flag(key) is Err ==> t.flag(key)->Err_0 == lead + "true or false"@
            &&& t.need_u32(key) is Err ==> t.need_u32(key)->Err_0 == lead + "a number of 32 bits"@
            &&& t.opt_u32(key) is Err ==> t.opt_u32(key)->Err_0 == lead + "a number of 32 bits"@
            &&& t.opt_u64(key) is Err ==> t.opt_u64(key)->Err_0 == lead + "a number of 64 bits"@
            &&& t.text_list(key) is Err ==> t.text_list(key)->Err_0 == lead + "a list of texts"@
            &&& t.text_table(key) is Err ==> t.text_table(key)->Err_0 == lead + "a table of texts"@
            &&& t.pair_list(key) is Err ==> t.pair_list(key)->Err_0 == lead
                + "a list of pairs of texts"@
            &&& t.need_bytes(key) is Err ==> t.need_bytes(key)->Err_0 == lead + "a list of bytes"@
            &&& t.items(key) is Err ==> t.items(key)->Err_0 == lead + "a list"@
        }),
{
}

/// Of a list only the first `n` items count; a table is left as it is, and nothing but a table
/// passes for one.
pub proof fn lists_are_cut_short(t: Tree, items: Seq<Tree>, n: nat, what: Seq<char>)
    ensures
        Tree::List(items).first_items(n) is List,
        ({
            let kept = Tree::List(items).first_items(n)->List_0;
            &&& kept.is_prefix_of(items)
            &&& kept.len() <= n
            &&& kept.len() < items.len() ==> kept.len() == n
        }),
        !(t is List) ==> t.first_items(n) == t,
        t.table(what) is Ok <==> t is Table,
        t.table(what) is Err ==> t.table(what)->Err_0 == "`"@ + what + "` must be "@ + "a table"@,
{
    if items.len() > n {
        assert(items.subrange(0, n as int) =~= items.take(n as int));
    } else {
        assert(items.subrange(0, items.len() as int) =~= items);
    }
}

/// One more item makes a list hold `Null`, or not fit TOML, exactly where the item does; so does
/// one more member of a table.
pub proof fn parts_decide_for_the_whole(
    items: Seq<Tree>,
    members: Seq<MemberTree>,
    key: Seq<char>,
    t: Tree,
)
    ensures
        Tree::List(items.push(t)).holds_null() == (Tree::List(items).holds_null()
            || t.holds_null()),
        Tree::Table(members.push(MemberTree { key, value: t })).holds_null() == (Tree::Table(
            members,
        ).holds_null() || t.holds_null()),
        fits_toml(Tree::List(items.push(t))) == (fits_toml(Tree::List(items)) && fits_toml(t)),
        fits_toml(Tree::Table(members.push(MemberTree { key, value: t }))) == (fits_toml(
            Tree::Table(members),
        ) && fits_toml(t)),
        fits_toml(t) ==> !(t is Null),
        !Tree::List(Seq::empty()).holds_null(),
        !Tree::Table(Seq::empty()).holds_null(),
        fits_toml(Tree::List(Seq::empty())),
        fits_toml(Tree::Table(Seq::empty())),
{
    let more = items.push(t);
    let wider = members.push(MemberTree { key, value: t });
    assert(more[items.len() as int] == t);
    assert(wider[members.len() as int].value == t);
    assert forall|i: int| 0 <= i < items.len() implies more[i] == #[trigger] items[i] by {}
    assert forall|i: int| 0 <= i < members.len() implies wider[i] == #[trigger] members[i] by {}
    if Tree::List(items).holds_null() {
        let i = choose|i: int| 0 <= i < items.len() && (#[trigger] items[i]).holds_null();
        assert(more[i].holds_null());
    }
    if Tree::Table(members).holds_null() {
        let i = choose|i: int| 0 <= i < members.len() && (#[trigger] members[i]).value.holds_null();
        assert(wider[i].value.holds_null());
    }
    if Tree::List(more).holds_null() {
        let i = choose|i: int| 0 <= i < more.len() && (#[trigger] more[i]).holds_null();
        if i < items.len() {
            assert(items[i].holds_null());
        }
    }
    if fits_toml(Tree::List(more)) {
        assert forall|i: int| 0 <= i < items.len() implies fits_toml(#[trigger] items[i]) by {
            assert(fits_toml(more[i]));
        }
    }
    if fits_toml(Tree::List(items)) && fits_toml(t) {
        assert forall|i: int| 0 <= i < more.len() implies fits_toml(#[trigger] more[i]) by {
            if i < items.len() {
                assert(fits_toml(items[i]));
            }
        }
    }
}

/// There is nothing under the name but a text, or `Null`.
pub open spec fn may_say_text(t: Tree, key: Seq<char>) -> bool {
    t.member(key) is Some ==> t.member(key)->0 is Text || t.member(key)->0 is Null
}

/// Of two faults the first is told; the second is told where the first is none.
pub proof fn the_first_fault_counts(a: Seq<char>, b: Option<Seq<char>>)
    ensures
        earlier(Some(a), b) == Some(a),
        earlier(None, b) == b,
{
}

/// A value without parts is not `Null` but where it is `Null` itself, and fits TOML but where it
/// is `Null` or an integer beyond 64 bits. A list begins with its first item; only an empty list
/// or table says nothing.
pub proof fn values_without_parts(t: Tree, items: Seq<Tree>, s: Seq<char>)
    ensures
        !(t is List) && !(t is Table) ==> t.holds_null() == (t is Null),
        !(t is List) && !(t is Table) && !(t is Integer) ==> fits_toml(t) == !(t is Null),
        t is Integer ==> fits_toml(t) == (-0x8000_0000_0000_0000 <= t->Integer_0
            < 0x8000_0000_0000_0000),
        t.begins(s) ==> t is List && t->List_0.len() > 0 && t->List_0[0] == Tree::Text(s),
        Tree::List(seq![Tree::Text(s)] + items).begins(s),
        t.says_nothing() <==> t is List && t->List_0.len() == 0 || t is Table && t->Table_0.len()
            == 0,
{
}

} // verus!
