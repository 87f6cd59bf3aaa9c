//! The registry of commands: a map from a command's name to the command.

use vstd::prelude::*;
use vstd::hash_map::StringHashMap;
use vstd::std_specs::convert::FromSpec;
use crate::builtins::{builtins, lemma_names_are_distinct, Builtin, Capabilities};
use crate::text::views;

verus! {

/// One name with the command to register under it, as a pair of
/// mathematical values.
pub open spec fn entry_view<C>(entry: (String, C)) -> (Seq<char>, C) {
    (entry.0@, entry.1)
}

/// The entries of a list of registrations, in order.
pub open spec fn entry_views<C>(entries: Seq<(String, C)>) -> Seq<(Seq<char>, C)> {
    Seq::new(entries.len(), |i: int| entry_view(entries[i]))
}

/// The registry after `entries` have been inserted into `m` one after the
/// other, a later entry replacing an earlier one of the same name.
pub open spec fn inserted_all<C>(m: Map<Seq<char>, C>, entries: Seq<(Seq<char>, C)>) -> Map<
    Seq<char>,
    C,
>
    decreases entries.len(),
{
    if entries.len() == 0 {
        m
    } else {
        inserted_all(m, entries.drop_last()).insert(entries.last().0, entries.last().1)
    }
}

/// The set of registered commands.
///
/// Its view is the map from names to commands. Names are unique: inserting
/// under a name that is taken replaces the command.
#[verifier::reject_recursive_types(C)]
pub struct Toolbox<C> {
    commands: StringHashMap<C>,
    names: Vec<String>,
}

impl<C> View for Toolbox<C> {
    type V = Map<Seq<char>, C>;

    closed spec fn view(&self) -> Map<Seq<char>, C> {
        self.commands@
    }
}

impl<C> Toolbox<C> {
    /// The list of names holds each registered name exactly once.
    #[verifier::type_invariant]
    spec fn well_formed(self) -> bool {
        &&& views(self.names@).no_duplicates()
        &&& forall|k: Seq<char>|
            self.commands@.contains_key(k) <==> #[trigger] views(self.names@).contains(k)
    }

    /// Create an empty toolbox.
    pub fn empty() -> (toolbox: Toolbox<C>)
        ensures
            toolbox@ == Map::<Seq<char>, C>::empty(),
    {
        let toolbox = Toolbox { commands: StringHashMap::new(), names: Vec::new() };
        assert(views(toolbox.names@) =~= Seq::<Seq<char>>::empty());
        toolbox
    }

    /// Create a toolbox that contains the builtin commands that the
    /// platform offers, each under its name. `make` gives the command for a
    /// builtin.
    pub fn new<F: Fn(Builtin) -> C>(caps: Capabilities, make: F) -> (toolbox: Toolbox<C>)
        requires
            forall|b: Builtin| b.enabled(caps) ==> call_requires(make, (b,)),
        ensures
            forall|k: Seq<char>|
                toolbox@.contains_key(k) <==> exists|b: Builtin|
                    b.enabled(caps) && #[trigger] b.spec_name() == k,
            forall|b: Builtin|
                b.enabled(caps) ==> call_ensures(make, (b,), #[trigger] toolbox@[b.spec_name()]),
    {
        let list = builtins(caps);
        let mut toolbox = Toolbox::empty();
        let mut i: usize = 0;
        while i < list.len()
            invariant
                i <= list.len(),
                list@.no_duplicates(),
                forall|b: Builtin| list@.contains(b) <==> b.enabled(caps),
                forall|b: Builtin| b.enabled(caps) ==> call_requires(make, (b,)),
                forall|k: Seq<char>|
                    toolbox@.contains_key(k) <==> exists|j: int|
                        0 <= j < i && (#[trigger] list[j]).spec_name() == k,
                forall|j: int|
                    0 <= j < i ==> call_ensures(
                        make,
                        (list[j],),
                        toolbox@[(#[trigger] list[j]).spec_name()],
                    ),
            decreases list.len() - i,
        {
            let b = list[i];
            let ghost before = toolbox@;
            assert(list@.contains(b));
            assert(b.enabled(caps));
            assert(call_requires(make, (b,)));
            let command = make(b);
            toolbox.insert(b.name(), command);
            proof {
                assert forall|j: int| 0 <= j < i + 1 implies call_ensures(
                    make,
                    (list[j],),
                    toolbox@[(#[trigger] list[j]).spec_name()],
                ) by {
                    if j < i {
                        lemma_names_are_distinct(list[j], b);
                        assert(toolbox@[list[j].spec_name()] == before[list[j].spec_name()]);
                    }
                }
                assert forall|k: Seq<char>|
                    toolbox@.contains_key(k) <==> exists|j: int|
                        0 <= j < i + 1 && (#[trigger] list[j]).spec_name() == k by {
                    if k == b.spec_name() {
                        assert(list[i as int].spec_name() == k);
                    } else if before.contains_key(k) {
                        let j = choose|j: int| 0 <= j < i && (#[trigger] list[j]).spec_name() == k;
                        assert(list[j].spec_name() == k);
                    }
                }
            }
            i += 1;
        }
        proof {
            assert forall|k: Seq<char>|
                toolbox@.contains_key(k) <==> exists|b: Builtin|
                    b.enabled(caps) && #[trigger] b.spec_name() == k by {
                if toolbox@.contains_key(k) {
                    let j = choose|j: int| 0 <= j < i && (#[trigger] list[j]).spec_name() == k;
                    assert(list@.contains(list[j]));
                }
                if exists|b: Builtin| b.enabled(caps) && #[trigger] b.spec_name() == k {
                    let b = choose|b: Builtin| b.enabled(caps) && #[trigger] b.spec_name() == k;
                    assert(list@.contains(b));
                    let j = choose|j: int| 0 <= j < list.len() && list[j] == b;
                    assert(list[j].spec_name() == k);
                }
            }
            assert forall|b: Builtin| b.enabled(caps) implies call_ensures(
                make,
                (b,),
                #[trigger] toolbox@[b.spec_name()],
            ) by {
                assert(list@.contains(b));
                let j = choose|j: int| 0 <= j < list.len() && list[j] == b;
                assert(call_ensures(make, (list[j],), toolbox@[list[j].spec_name()]));
            }
        }
        toolbox
    }

    /// Get a command by its name.
    pub fn get(&self, key: &str) -> (r: Option<&C>)
        ensures
            match r {
                Some(command) => self@.contains_key(key@) && *command == self@[key@],
                None => !self@.contains_key(key@),
            },
    {
        self.commands.get(key)
    }

    /// List the names of the available commands, each once.
    pub fn keys(&self) -> (r: Vec<String>)
        ensures
            views(r@).no_duplicates(),
            views(r@).to_set() == self@.dom(),
            self@.dom().finite(),
            r.len() == self@.dom().len(),
    {
        proof {
            use_type_invariant(self);
        }
        let mut out: Vec<String> = Vec::new();
        let mut i: usize = 0;
        while i < self.names.len()
            invariant
                i <= self.names.len(),
                views(out@) == views(self.names@).take(i as int),
            decreases self.names.len() - i,
        {
            let ghost copied = out@;
            out.push(self.names[i].clone());
            proof {
                let target = views(self.names@).take(i + 1);
                assert(views(copied).len() == copied.len());
                assert forall|j: int| 0 <= j < target.len() implies views(out@)[j] == target[j] by {
                    if j < i {
                        assert(views(copied)[j] == views(self.names@).take(i as int)[j]);
                    }
                }
                assert(views(out@) =~= target);
            }
            i += 1;
        }
        proof {
            let names = views(self.names@);
            assert(names.take(names.len() as int) =~= names);
            assert(names.to_set() =~= self@.dom());
            vstd::seq_lib::seq_to_set_is_finite(names);
            names.unique_seq_to_set();
        }
        out
    }

    /// Insert a command into the toolbox. A command that was registered
    /// under the same name is replaced.
    pub fn insert(&mut self, key: &str, func: C)
        ensures
            final(self)@ == old(self)@.insert(key@, func),
    {
        proof {
            use_type_invariant(&*self);
        }
        let mut taken = Toolbox::empty();
        std::mem::swap(&mut taken, self);
        proof {
            use_type_invariant(&taken);
        }
        let Toolbox { mut commands, mut names } = taken;
        let ghost before = views(names@);
        if !commands.contains_key(key) {
            names.push(key.to_owned());
            proof {
                assert(views(names@) =~= before.push(key@));
            }
        }
        commands.insert(key.to_owned(), func);
        proof {
            let after = views(names@);
            assert(after.no_duplicates()) by {
                assert forall|i: int, j: int|
                    0 <= i < after.len() && 0 <= j < after.len() && i != j implies after[i]
                    != after[j] by {
                    if i < before.len() && j < before.len() {
                        assert(before[i] == after[i] && before[j] == after[j]);
                    } else if i < before.len() {
                        assert(!before.contains(key@));
                        assert(before[i] == after[i]);
                    } else if j < before.len() {
                        assert(!before.contains(key@));
                        assert(before[j] == after[j]);
                    }
                }
            }
            assert forall|k: Seq<char>| commands@.contains_key(k) <==> #[trigger] after.contains(
                k,
            ) by {
                if before.contains(k) {
                    let i = choose|i: int| 0 <= i < before.len() && before[i] == k;
                    assert(after[i] == k);
                }
                if after.contains(k) && k != key@ {
                    let i = choose|i: int| 0 <= i < after.len() && after[i] == k;
                    assert(before[i] == k);
                }
                if k == key@ {
                    if before.contains(k) {
                    } else {
                        assert(after[before.len() as int] == k);
                    }
                }
            }
        }
        *self = Toolbox { commands, names };
    }

    /// Insert many commands into the toolbox, in the order of the list.
    pub fn insert_many(&mut self, commands: Vec<(String, C)>)
        ensures
            final(self)@ == inserted_all(old(self)@, entry_views(commands@)),
    {
        let ghost all = entry_views(commands@);
        let ghost start = self@;
        for entry in it: commands
            invariant
                it.seq() == commands@,
                all == entry_views(commands@),
                self@ == inserted_all(start, all.take(it.index() as int)),
        {
            let (key, func) = entry;
            proof {
                let p = all.take(it.index() + 1);
                assert(p.drop_last() =~= all.take(it.index() as int));
                assert(p.last() == (key@, func));
            }
            self.insert(key.as_str(), func);
        }
        proof {
            assert(all.take(all.len() as int) =~= all);
        }
    }

    /// Builder pattern to create a toolbox with custom commands.
    pub fn with(self, commands: Vec<(String, C)>) -> (toolbox: Toolbox<C>)
        ensures
            toolbox@ == inserted_all(self@, entry_views(commands@)),
    {
        let mut toolbox = self;
        toolbox.insert_many(commands);
        toolbox
    }
}

/// The entries of a list of registrations whose commands are still to be
/// converted, in order.
pub open spec fn converted_views<N, C: From<N>>(entries: Seq<(String, N)>) -> Seq<(Seq<char>, C)> {
    Seq::new(entries.len(), |i: int| (entries[i].0@, C::from_spec(entries[i].1)))
}

/// The names under which a list of registrations registers.
pub open spec fn names_of<N>(entries: Seq<(String, N)>) -> Set<Seq<char>> {
    Set::new(|k: Seq<char>| exists|i: int| 0 <= i < entries.len() && #[trigger] entries[i].0@ == k)
}

impl<C> Toolbox<C> {
    /// Insert many commands of another form into the toolbox, in the order
    /// of the list, each converted to a command.
    ///
    /// The names that are registered afterwards are those that were, and
    /// those of the list. What stands under a name of the list is what the
    /// conversion made of the last entry of that name, as far as the
    /// conversion says what it makes.
    pub fn insert_many_native<N>(&mut self, commands: Vec<(String, N)>) where C: From<N>
        ensures
            final(self)@.dom() == old(self)@.dom().union(names_of(commands@)),
            forall|k: Seq<char>|
                #![trigger final(self)@[k]]
                old(self)@.contains_key(k) && !names_of(commands@).contains(k) ==> final(self)@[k]
                    == old(self)@[k],
            C::obeys_from_spec() ==> final(self)@ == inserted_all(
                old(self)@,
                converted_views::<N, C>(commands@),
            ),
    {
        let ghost all = converted_views::<N, C>(commands@);
        let ghost start = self@;
        proof {
            assert(start.dom().union(names_of(commands@.take(0))) =~= start.dom());
        }
        for entry in it: commands
            invariant
                it.seq() == commands@,
                all == converted_views::<N, C>(commands@),
                C::obeys_from_spec() ==> self@ == inserted_all(start, all.take(it.index() as int)),
                self@.dom() == start.dom().union(names_of(commands@.take(it.index() as int))),
                forall|k: Seq<char>|
                    #![trigger self@[k]]
                    start.contains_key(k) && !names_of(commands@.take(it.index() as int)).contains(k)
                        ==> self@[k] == start[k],
        {
            let (key, func) = entry;
            let command = C::from(func);
            let ghost i = it.index() as int;
            let ghost before = self@;
            proof {
                let p = all.take(i + 1);
                assert(p.drop_last() =~= all.take(i));
                if C::obeys_from_spec() {
                    assert(p.last() == (key@, command));
                }
            }
            self.insert(key.as_str(), command);
            proof {
                let head = commands@.take(i);
                let more = commands@.take(i + 1);
                assert(more[i].0@ == key@);
                assert forall|k: Seq<char>| names_of(more).contains(k) <==> (names_of(
                    head,
                ).contains(k) || k == key@) by {
                    if names_of(head).contains(k) {
                        let j = choose|j: int| 0 <= j < head.len() && #[trigger] head[j].0@ == k;
                        assert(more[j].0@ == k);
                    }
                    if names_of(more).contains(k) && k != key@ {
                        let j = choose|j: int| 0 <= j < more.len() && #[trigger] more[j].0@ == k;
                        assert(head[j].0@ == k);
                    }
                }
                assert(self@.dom() =~= start.dom().union(names_of(more)));
            }
        }
        proof {
            assert(all.take(all.len() as int) =~= all);
            assert(commands@.take(commands@.len() as int) =~= commands@);
        }
    }
}

impl<C: Clone> Toolbox<C> {
    /// A toolbox of its own with the same names, each with a clone of its
    /// command.
    pub fn duplicate(&self) -> (copy: Toolbox<C>)
        ensures
            copy@.dom() == self@.dom(),
            forall|k: Seq<char>| self@.contains_key(k) ==> cloned(self@[k], #[trigger] copy@[k]),
    {
        let names = self.keys();
        let mut copy = Toolbox::empty();
        let mut i: usize = 0;
        while i < names.len()
            invariant
                i <= names.len(),
                views(names@).to_set() == self@.dom(),
                forall|k: Seq<char>|
                    copy@.contains_key(k) <==> exists|j: int|
                        0 <= j < i && #[trigger] views(names@)[j] == k,
                forall|k: Seq<char>| copy@.contains_key(k) ==> cloned(self@[k], #[trigger] copy@[k]),
            decreases names.len() - i,
        {
            let ghost before = copy@;
            let ghost name = views(names@)[i as int];
            assert(views(names@).to_set().contains(name));
            match self.get(names[i].as_str()) {
                Some(command) => {
                    copy.insert(names[i].as_str(), command.clone());
                },
                None => {},
            }
            proof {
                assert forall|k: Seq<char>|
                    copy@.contains_key(k) <==> exists|j: int|
                        0 <= j < i + 1 && #[trigger] views(names@)[j] == k by {
                    if k == name {
                        assert(views(names@)[i as int] == k);
                    } else if before.contains_key(k) {
                        let j = choose|j: int| 0 <= j < i && #[trigger] views(names@)[j] == k;
                        assert(views(names@)[j] == k);
                    }
                }
            }
            i += 1;
        }
        proof {
            assert forall|k: Seq<char>| copy@.dom().contains(k) <==> self@.dom().contains(k) by {
                if self@.dom().contains(k) {
                    assert(views(names@).to_set().contains(k));
                    let j = choose|j: int| 0 <= j < names.len() && views(names@)[j] == k;
                    assert(views(names@)[j] == k);
                }
                if copy@.contains_key(k) {
                    let j = choose|j: int| 0 <= j < i && #[trigger] views(names@)[j] == k;
                    assert(views(names@).contains(views(names@)[j]));
                }
            }
            assert(copy@.dom() =~= self@.dom());
        }
        copy
    }
}

/// Inserting two commands under one name keeps only the second.
pub proof fn lemma_last_insert_wins<C>(m: Map<Seq<char>, C>, name: Seq<char>, first: C, second: C)
    ensures
        m.insert(name, first).insert(name, second) == m.insert(name, second),
        m.insert(name, first).insert(name, second)[name] == second,
{
    assert(m.insert(name, first).insert(name, second) =~= m.insert(name, second));
}

/// The names of a registry after a list was inserted are the names that it
/// had and the names of the list, each once however often it was inserted.
pub proof fn lemma_keys_are_the_inserted_names<C>(m: Map<Seq<char>, C>, entries: Seq<(Seq<char>, C)>)
    ensures
        inserted_all(m, entries).dom() == m.dom().union(
            entries.map_values(|e: (Seq<char>, C)| e.0).to_set(),
        ),
    decreases entries.len(),
{
    let names = entries.map_values(|e: (Seq<char>, C)| e.0);
    let all = inserted_all(m, entries);
    if entries.len() == 0 {
        assert(all.dom() =~= m.dom().union(names.to_set()));
    } else {
        let head = entries.drop_last();
        lemma_keys_are_the_inserted_names(m, head);
        let head_names = head.map_values(|e: (Seq<char>, C)| e.0);
        assert(head_names =~= names.drop_last());
        assert forall|k: Seq<char>|
            all.dom().contains(k) <==> (m.dom().contains(k) || names.to_set().contains(k)) by {
            if names.to_set().contains(k) {
                let i = choose|i: int| 0 <= i < names.len() && names[i] == k;
                if i < names.len() - 1 {
                    assert(head_names[i] == k);
                    assert(head_names.to_set().contains(k));
                }
            }
            if all.dom().contains(k) && k != entries.last().0 && !m.dom().contains(k) {
                assert(head_names.to_set().contains(k));
                let i = choose|i: int| 0 <= i < head_names.len() && head_names[i] == k;
                assert(names[i] == k);
            }
            if k == entries.last().0 {
                assert(names[names.len() - 1] == k);
            }
        }
        assert(all.dom() =~= m.dom().union(names.to_set()));
    }
}

} // verus!
