use vstd::prelude::*;
use crate::schema::{CommandDescriptor, CommandKey, CommandKind};

verus! {

/// A registered command: its descriptor and the binder that runs it.
#[derive(Debug)]
pub struct RegistryEntry<B> {
    pub descriptor: CommandDescriptor,
    pub binder: B,
}

impl<B> RegistryEntry<B> {
    pub open spec fn key(&self) -> CommandKey {
        self.descriptor.key()
    }
}

/// Registration failed: an entry with the same key is already present.
#[derive(Clone, Copy, Debug, PartialEq, Eq, Structural)]
pub struct DuplicateCommand;

/// The table that a list of entries stands for, keyed by command key.
pub open spec fn entries_map<B>(s: Seq<RegistryEntry<B>>) -> Map<CommandKey, RegistryEntry<B>>
    decreases s.len(),
{
    if s.len() == 0 {
        Map::empty()
    } else {
        entries_map(s.drop_last()).insert(s.last().key(), s.last())
    }
}

/// No two entries of `s` share a key.
pub open spec fn keys_unique<B>(s: Seq<RegistryEntry<B>>) -> bool {
    forall|i: int, j: int|
        0 <= i < s.len() && 0 <= j < s.len() && i != j ==> #[trigger] s[i].key() != #[trigger] s[j].key()
}

proof fn lemma_entries_map_domain<B>(s: Seq<RegistryEntry<B>>, k: CommandKey)
    ensures
        entries_map(s).contains_key(k) <==> exists|i: int| 0 <= i < s.len() && (#[trigger] s[i]).key() == k,
    decreases s.len(),
{
    if s.len() > 0 {
        lemma_entries_map_domain(s.drop_last(), k);
        if entries_map(s.drop_last()).contains_key(k) {
            let i = choose|i: int| 0 <= i < s.drop_last().len() && (#[trigger] s.drop_last()[i]).key() == k;
            assert(s[i] == s.drop_last()[i]);
        }
        if exists|i: int| 0 <= i < s.len() && (#[trigger] s[i]).key() == k {
            let i = choose|i: int| 0 <= i < s.len() && (#[trigger] s[i]).key() == k;
            if i < s.len() - 1 {
                assert(s.drop_last()[i] == s[i]);
            }
        }
    }
}

proof fn lemma_entries_map_value<B>(s: Seq<RegistryEntry<B>>, i: int)
    requires
        keys_unique(s),
        0 <= i < s.len(),
    ensures
        entries_map(s).contains_key(s[i].key()),
        entries_map(s)[s[i].key()] == s[i],
    decreases s.len(),
{
    if i < s.len() - 1 {
        let t = s.drop_last();
        assert(t[i] == s[i]);
        assert(keys_unique(t)) by {
            assert forall|a: int, b: int|
                0 <= a < t.len() && 0 <= b < t.len() && a != b implies #[trigger] t[a].key()
                != #[trigger] t[b].key() by {
                assert(t[a] == s[a] && t[b] == s[b]);
            }
        }
        lemma_entries_map_value(t, i);
        assert(s[s.len() - 1].key() != s[i].key());
    }
}

/// The key of the command named `command`, or of its subcommand `sub`.
pub open spec fn key_of(command: &String, sub: Option<&String>) -> CommandKey {
    (
        command@,
        match sub {
            Some(s) => Some(s@),
            None => None,
        },
    )
}

/// The entry that `table` holds under `key`, if any.
pub open spec fn entry_at<B>(table: Map<CommandKey, RegistryEntry<B>>, key: CommandKey) -> Option<
    RegistryEntry<B>,
> {
    if table.contains_key(key) {
        Some(table[key])
    } else {
        None
    }
}

/// The table after registering `descriptor` with `binder` in `table`: the
/// entry is added when its key is free, and nothing changes otherwise.
pub open spec fn registered<B>(
    table: Map<CommandKey, RegistryEntry<B>>,
    descriptor: CommandDescriptor,
    binder: B,
) -> Map<CommandKey, RegistryEntry<B>> {
    if table.contains_key(descriptor.key()) {
        table
    } else {
        table.insert(descriptor.key(), RegistryEntry { descriptor, binder })
    }
}

/// The table of registered commands, and the dispatcher that resolves
/// invocations against it. Binders are plain values of type `B` that name
/// the code that runs a command.
#[derive(Debug)]
pub struct CommandHandler<B> {
    entries: Vec<RegistryEntry<B>>,
}

impl<B> View for CommandHandler<B> {
    type V = Map<CommandKey, RegistryEntry<B>>;

    closed spec fn view(&self) -> Self::V {
        entries_map(self.entries@)
    }
}

impl<B> CommandHandler<B> {
    /// Every entry is well formed and no two share a key.
    pub closed spec fn wf(&self) -> bool {
        &&& keys_unique(self.entries@)
        &&& forall|i: int| 0 <= i < self.entries@.len() ==> (#[trigger] self.entries@[i]).descriptor.wf()
    }

    /// An empty table.
    pub fn new() -> (r: Self)
        ensures
            r.wf(),
            r@ == Map::<CommandKey, RegistryEntry<B>>::empty(),
    {
        CommandHandler { entries: Vec::new() }
    }

    fn find(&self, command: &String, sub: Option<&String>) -> (r: Option<usize>)
        ensures
            r matches Some(i) ==> i < self.entries@.len() && self.entries@[i as int].key() == key_of(command, sub),
            r is None ==> forall|i: int| 0 <= i < self.entries@.len() ==> (#[trigger] self.entries@[i]).key() != key_of(command, sub),
    {
        let mut i: usize = 0;
        while i < self.entries.len()
            invariant
                i <= self.entries@.len(),
                forall|j: int| 0 <= j < i ==> (#[trigger] self.entries@[j]).key() != key_of(command, sub),
            decreases self.entries@.len() - i,
        {
            let d = &self.entries[i].descriptor;
            let hit = match &d.kind {
                CommandKind::Sub(g) => match sub {
                    Some(s) => *g == *command && d.name == *s,
                    None => false,
                },
                _ => match sub {
                    Some(_) => false,
                    None => d.name == *command,
                },
            };
            if hit {
                return Some(i);
            }
            i = i + 1;
        }
        None
    }

    /// The entry registered for command `command`, or for its subcommand
    /// `sub`.
    pub fn lookup(&self, command: &String, sub: Option<&String>) -> (r: Option<&RegistryEntry<B>>)
        requires
            self.wf(),
        ensures
            match r {
                Some(e) => entry_at(self@, key_of(command, sub)) == Some(*e),
                None => entry_at(self@, key_of(command, sub)) is None,
            },
    {
        match self.find(command, sub) {
            Some(i) => {
                proof {
                    lemma_entries_map_value(self.entries@, i as int);
                }
                Some(&self.entries[i])
            },
            None => {
                proof {
                    lemma_entries_map_domain(self.entries@, key_of(command, sub));
                }
                None
            },
        }
    }

    /// Registers `descriptor` with `binder`; fails, and changes nothing, when
    /// an entry with the same key is present.
    pub fn register(&mut self, descriptor: CommandDescriptor, binder: B) -> (r: Result<(), DuplicateCommand>)
        requires
            old(self).wf(),
            descriptor.wf(),
        ensures
            final(self).wf(),
            r is Ok <==> !old(self)@.contains_key(descriptor.key()),
            final(self)@ == registered(old(self)@, descriptor, binder),
    {
        let found = match &descriptor.kind {
            CommandKind::Sub(g) => self.find(g, Some(&descriptor.name)),
            _ => self.find(&descriptor.name, None),
        };
        proof {
            lemma_entries_map_domain(self.entries@, descriptor.key());
        }
        match found {
            Some(_) => Err(DuplicateCommand),
            None => {
                let ghost prev = self.entries@;
                self.entries.push(RegistryEntry { descriptor, binder });
                proof {
                    assert(self.entries@.drop_last() =~= prev);
                    assert forall|i: int, j: int|
                        0 <= i < self.entries@.len() && 0 <= j < self.entries@.len() && i != j implies
                        #[trigger] self.entries@[i].key() != #[trigger] self.entries@[j].key() by {
                        if i < prev.len() && j < prev.len() {
                            assert(self.entries@[i] == prev[i] && self.entries@[j] == prev[j]);
                        } else if i < prev.len() {
                            assert(self.entries@[i] == prev[i]);
                        } else if j < prev.len() {
                            assert(self.entries@[j] == prev[j]);
                        }
                    }
                    assert forall|i: int| 0 <= i < self.entries@.len() implies (#[trigger] self.entries@[i]).descriptor.wf() by {
                        if i < prev.len() {
                            assert(self.entries@[i] == prev[i]);
                        }
                    }
                }
                Ok(())
            },
        }
    }
}

/// The table after registering each of `ds`, in order, with `binder`.
pub open spec fn registered_all<B>(
    table: Map<CommandKey, RegistryEntry<B>>,
    ds: Seq<CommandDescriptor>,
    binder: B,
) -> Map<CommandKey, RegistryEntry<B>>
    decreases ds.len(),
{
    if ds.len() == 0 {
        table
    } else {
        registered(registered_all(table, ds.drop_last(), binder), ds.last(), binder)
    }
}

/// No key of `ds` is in `table`, and no two of `ds` share a key.
pub open spec fn all_fresh<B>(table: Map<CommandKey, RegistryEntry<B>>, ds: Seq<CommandDescriptor>) -> bool {
    &&& forall|i: int| 0 <= i < ds.len() ==> !table.contains_key(#[trigger] ds[i].key())
    &&& forall|i: int, j: int|
        0 <= i < ds.len() && 0 <= j < ds.len() && i != j ==> #[trigger] ds[i].key() != #[trigger] ds[j].key()
}

proof fn lemma_registered_all_domain<B>(
    table: Map<CommandKey, RegistryEntry<B>>,
    ds: Seq<CommandDescriptor>,
    binder: B,
    k: CommandKey,
)
    ensures
        registered_all(table, ds, binder).contains_key(k) <==> table.contains_key(k) || exists|i: int|
            0 <= i < ds.len() && (#[trigger] ds[i]).key() == k,
    decreases ds.len(),
{
    if ds.len() > 0 {
        lemma_registered_all_domain(table, ds.drop_last(), binder, k);
        if exists|i: int| 0 <= i < ds.drop_last().len() && (#[trigger] ds.drop_last()[i]).key() == k {
            let i = choose|i: int| 0 <= i < ds.drop_last().len() && (#[trigger] ds.drop_last()[i]).key() == k;
            assert(ds[i] == ds.drop_last()[i]);
        }
        if exists|i: int| 0 <= i < ds.len() && (#[trigger] ds[i]).key() == k {
            let i = choose|i: int| 0 <= i < ds.len() && (#[trigger] ds[i]).key() == k;
            if i < ds.len() - 1 {
                assert(ds.drop_last()[i] == ds[i]);
            }
        }
    }
}

/// Whether two descriptors stand under the same key.
pub fn same_key(a: &CommandDescriptor, b: &CommandDescriptor) -> (r: bool)
    ensures
        r == (a.key() == b.key()),
{
    match (&a.kind, &b.kind) {
        (CommandKind::Sub(g), CommandKind::Sub(h)) => *g == *h && a.name == b.name,
        (CommandKind::Sub(_), _) => false,
        (_, CommandKind::Sub(_)) => false,
        _ => a.name == b.name,
    }
}

impl<B: Copy> CommandHandler<B> {
    /// Registers every command that a controller declares, all with
    /// `binder`. Either all of them are registered, or, when a key is taken
    /// or repeated, none is.
    pub fn add_command(&mut self, descriptors: Vec<CommandDescriptor>, binder: B) -> (r: Result<
        (),
        DuplicateCommand,
    >)
        requires
            old(self).wf(),
            forall|i: int| 0 <= i < descriptors@.len() ==> (#[trigger] descriptors@[i]).wf(),
        ensures
            final(self).wf(),
            r is Ok <==> all_fresh(old(self)@, descriptors@),
            r is Ok ==> final(self)@ == registered_all(old(self)@, descriptors@, binder),
            r is Err ==> final(self)@ == old(self)@,
    {
        let ghost ds = descriptors@;
        let n = descriptors.len();
        let mut i: usize = 0;
        while i < n
            invariant
                n == ds.len(),
                ds == descriptors@,
                self.wf(),
                self@ == old(self)@,
                i <= n,
                forall|a: int| 0 <= a < i ==> !self@.contains_key(#[trigger] ds[a].key()),
                forall|a: int, b: int|
                    0 <= a < i && 0 <= b < n && a != b ==> #[trigger] ds[a].key() != #[trigger] ds[b].key(),
            decreases n - i,
        {
            let d = &descriptors[i];
            let taken = match &d.kind {
                CommandKind::Sub(g) => self.lookup(g, Some(&d.name)).is_some(),
                _ => self.lookup(&d.name, None).is_some(),
            };
            if taken {
                assert(self@.contains_key(d.key()));
                return Err(DuplicateCommand);
            }
            let mut j: usize = 0;
            while j < n
                invariant
                    n == ds.len(),
                    ds == descriptors@,
                    self.wf(),
                    self@ == old(self)@,
                    i < n,
                    j <= n,
                    forall|b: int| 0 <= b < j && b != i ==> ds[i as int].key() != #[trigger] ds[b].key(),
                decreases n - j,
            {
                if j != i && same_key(&descriptors[i], &descriptors[j]) {
                    return Err(DuplicateCommand);
                }
                j = j + 1;
            }
            i = i + 1;
        }
        let ghost start = self@;
        let mut rest = descriptors;
        let mut k: usize = 0;
        while k < n
            invariant
                n == ds.len(),
                k <= n,
                rest@ == ds.skip(k as int),
                self.wf(),
                all_fresh(start, ds),
                self@ == registered_all(start, ds.take(k as int), binder),
                forall|a: int| 0 <= a < ds.len() ==> (#[trigger] ds[a]).wf(),
            decreases n - k,
        {
            let d = rest.remove(0);
            assert(d == ds[k as int]);
            proof {
                assert(ds.take(k + 1).drop_last() =~= ds.take(k as int));
                assert(ds.take(k + 1).last() == ds[k as int]);
                lemma_registered_all_domain(start, ds.take(k as int), binder, d.key());
                if exists|a: int| 0 <= a < ds.take(k as int).len() && (#[trigger] ds.take(k as int)[a]).key() == d.key() {
                    let a = choose|a: int| 0 <= a < ds.take(k as int).len() && (#[trigger] ds.take(k as int)[a]).key() == d.key();
                    assert(ds[a] == ds.take(k as int)[a]);
                }
            }
            let ok = self.register(d, binder);
            assert(ok is Ok);
            assert(rest@ =~= ds.skip(k + 1));
            k = k + 1;
        }
        assert(ds.take(n as int) =~= ds);
        Ok(())
    }
}

} // verus!
