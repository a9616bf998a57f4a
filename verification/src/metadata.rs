//! Short key/value notes attached to Panes and Projects.
//!
//! A store is viewed as a map from an owner and a key to a value with its
//! expiry. Pane notes may expire; Project notes never do.
use crate::text::{chars_of, same_text, string_of, trim, trimmed};
use vstd::prelude::*;

verus! {

/// The longest key, in characters.
pub const MAX_KEY_CHARS: usize = 32;

/// The longest value, in characters.
pub const MAX_VALUE_CHARS: usize = 200;

/// The longest lifetime of an expiring note, in seconds.
pub const MAX_TTL_SECONDS: u64 = 86_400;

/// A note as a mathematical value.
pub struct Note {
    pub value: Seq<char>,
    /// When it expires, in milliseconds of the server clock.
    pub expires: Option<u64>,
}

/// One stored note.
#[derive(Debug)]
pub struct MetaEntry {
    pub owner: u64,
    pub key: String,
    pub value: String,
    pub expires: Option<u64>,
}

impl MetaEntry {
    pub open spec fn slot(self) -> (u64, Seq<char>) {
        (self.owner, self.key@)
    }

    pub open spec fn note(self) -> Note {
        Note { value: self.value@, expires: self.expires }
    }

    /// The note has not expired at `now`.
    pub open spec fn alive(self, now: u64) -> bool {
        self.expires is None || self.expires->0 > now
    }
}

/// The notes of every owner.
#[derive(Debug)]
pub struct MetadataStore {
    pub entries: Vec<MetaEntry>,
}

/// The map that a list of entries stands for.
pub open spec fn table(entries: Seq<MetaEntry>) -> Map<(u64, Seq<char>), Note>
    decreases entries.len(),
{
    if entries.len() == 0 {
        Map::empty()
    } else {
        table(entries.drop_last()).insert(entries.last().slot(), entries.last().note())
    }
}

/// No slot is stored twice.
pub open spec fn slots_distinct(entries: Seq<MetaEntry>) -> bool {
    forall|i: int, j: int|
        0 <= i < j < entries.len() ==> (#[trigger] entries[i]).slot() != (#[trigger] entries[j]).slot()
}

impl View for MetadataStore {
    type V = Map<(u64, Seq<char>), Note>;

    open spec fn view(&self) -> Map<(u64, Seq<char>), Note> {
        table(self.entries@)
    }
}

/// The entries in other slots.
pub open spec fn without_slot(entries: Seq<MetaEntry>, slot: (u64, Seq<char>)) -> Seq<MetaEntry>
    decreases entries.len(),
{
    if entries.len() == 0 {
        entries
    } else if entries.last().slot() == slot {
        without_slot(entries.drop_last(), slot)
    } else {
        without_slot(entries.drop_last(), slot).push(entries.last())
    }
}

/// The entries of other owners.
pub open spec fn without_owner(entries: Seq<MetaEntry>, owner: u64) -> Seq<MetaEntry>
    decreases entries.len(),
{
    if entries.len() == 0 {
        entries
    } else if entries.last().owner == owner {
        without_owner(entries.drop_last(), owner)
    } else {
        without_owner(entries.drop_last(), owner).push(entries.last())
    }
}

/// The entries that have not expired at `now`.
pub open spec fn alive_at(entries: Seq<MetaEntry>, now: u64) -> Seq<MetaEntry>
    decreases entries.len(),
{
    if entries.len() == 0 {
        entries
    } else if entries.last().alive(now) {
        alive_at(entries.drop_last(), now).push(entries.last())
    } else {
        alive_at(entries.drop_last(), now)
    }
}

/// The notes of other owners.
pub open spec fn forget_owner(
    notes: Map<(u64, Seq<char>), Note>,
    owner: u64,
) -> Map<(u64, Seq<char>), Note> {
    Map::new(
        |slot: (u64, Seq<char>)| notes.dom().contains(slot) && slot.0 != owner,
        |slot: (u64, Seq<char>)| notes[slot],
    )
}

/// The notes that have not expired at `now`.
pub open spec fn unexpired(
    notes: Map<(u64, Seq<char>), Note>,
    now: u64,
) -> Map<(u64, Seq<char>), Note> {
    Map::new(
        |slot: (u64, Seq<char>)|
            notes.dom().contains(slot) && (notes[slot].expires is None || notes[slot].expires->0
                > now),
        |slot: (u64, Seq<char>)| notes[slot],
    )
}

proof fn lemma_distinct_prefix(entries: Seq<MetaEntry>)
    requires
        slots_distinct(entries),
        entries.len() > 0,
    ensures
        slots_distinct(entries.drop_last()),
        !table(entries.drop_last()).dom().contains(entries.last().slot()),
{
    let head = entries.drop_last();
    assert forall|i: int, j: int| 0 <= i < j < head.len() implies (#[trigger] head[i]).slot()
        != (#[trigger] head[j]).slot() by {
        assert(entries[i].slot() != entries[j].slot());
    }
    if table(head).dom().contains(entries.last().slot()) {
        lemma_stored(head, entries.last().slot());
        let i = choose|i: int|
            0 <= i < head.len() && (#[trigger] head[i]).slot() == entries.last().slot();
        assert(entries[i].slot() != entries[entries.len() - 1].slot());
    }
}

proof fn lemma_stored(entries: Seq<MetaEntry>, slot: (u64, Seq<char>))
    requires
        table(entries).dom().contains(slot),
    ensures
        exists|i: int| 0 <= i < entries.len() && (#[trigger] entries[i]).slot() == slot,
    decreases entries.len(),
{
    if entries.len() > 0 {
        if entries.last().slot() == slot {
            assert(entries[entries.len() - 1].slot() == slot);
        } else {
            let head = entries.drop_last();
            lemma_stored(head, slot);
            let i = choose|i: int| 0 <= i < head.len() && (#[trigger] head[i]).slot() == slot;
            assert(entries[i].slot() == slot);
        }
    }
}

proof fn lemma_without_slot(entries: Seq<MetaEntry>, slot: (u64, Seq<char>))
    requires
        slots_distinct(entries),
    ensures
        table(without_slot(entries, slot)) =~= table(entries).remove(slot),
        slots_distinct(without_slot(entries, slot)),
        forall|i: int|
            0 <= i < without_slot(entries, slot).len() ==> (#[trigger] without_slot(
                entries,
                slot,
            )[i]).slot() != slot && entries.contains(without_slot(entries, slot)[i]),
    decreases entries.len(),
{
    if entries.len() > 0 {
        let head = entries.drop_last();
        let rest = without_slot(head, slot);
        let out = without_slot(entries, slot);
        lemma_distinct_prefix(entries);
        lemma_without_slot(head, slot);
        lemma_kept(entries, rest, out);
        if entries.last().slot() != slot {
            assert(out.drop_last() =~= rest);
        }
        assert(table(out) =~= table(entries).remove(slot));
    } else {
        assert(table(entries).remove(slot) =~= table(entries));
    }
}

/// What is kept of a prefix is kept of the whole, with or without the last.
proof fn lemma_kept(entries: Seq<MetaEntry>, rest: Seq<MetaEntry>, out: Seq<MetaEntry>)
    requires
        entries.len() > 0,
        slots_distinct(entries),
        slots_distinct(rest),
        forall|i: int|
            0 <= i < rest.len() ==> entries.drop_last().contains(#[trigger] rest[i]),
        out == rest || out == rest.push(entries.last()),
    ensures
        slots_distinct(out),
        forall|i: int| 0 <= i < out.len() ==> entries.contains(#[trigger] out[i]),
{
    let head = entries.drop_last();
    assert forall|i: int| 0 <= i < out.len() implies entries.contains(#[trigger] out[i]) by {
        if i < rest.len() {
            assert(head.contains(rest[i]));
            let k = choose|k: int| 0 <= k < head.len() && head[k] == rest[i];
            assert(entries[k] == out[i]);
        } else {
            assert(entries[entries.len() - 1] == out[i]);
        }
    }
    assert forall|i: int, j: int| 0 <= i < j < out.len() implies (#[trigger] out[i]).slot() != (
    #[trigger] out[j]).slot() by {
        if j < rest.len() {
            assert(rest[i].slot() != rest[j].slot());
        } else {
            assert(head.contains(rest[i]));
            let k = choose|k: int| 0 <= k < head.len() && head[k] == rest[i];
            assert(entries[k].slot() != entries[entries.len() - 1].slot());
        }
    }
}

proof fn lemma_without_owner(entries: Seq<MetaEntry>, owner: u64)
    requires
        slots_distinct(entries),
    ensures
        table(without_owner(entries, owner)) =~= forget_owner(table(entries), owner),
        slots_distinct(without_owner(entries, owner)),
        forall|i: int|
            0 <= i < without_owner(entries, owner).len() ==> entries.contains(
                #[trigger] without_owner(entries, owner)[i],
            ),
    decreases entries.len(),
{
    if entries.len() > 0 {
        let head = entries.drop_last();
        let rest = without_owner(head, owner);
        let out = without_owner(entries, owner);
        lemma_distinct_prefix(entries);
        lemma_without_owner(head, owner);
        lemma_kept(entries, rest, out);
        if entries.last().owner != owner {
            assert(out.drop_last() =~= rest);
        }
        assert(table(out) =~= forget_owner(table(entries), owner));
    }
}

proof fn lemma_alive_at(entries: Seq<MetaEntry>, now: u64)
    requires
        slots_distinct(entries),
    ensures
        table(alive_at(entries, now)) =~= unexpired(table(entries), now),
        slots_distinct(alive_at(entries, now)),
        alive_at(entries, now).len() <= entries.len(),
        alive_at(entries, now).len() == entries.len() ==> alive_at(entries, now) =~= entries,
        alive_at(entries, now).len() == entries.len() <==> unexpired(table(entries), now)
            =~= table(entries),
        forall|i: int|
            0 <= i < alive_at(entries, now).len() ==> entries.contains(
                #[trigger] alive_at(entries, now)[i],
            ),
    decreases entries.len(),
{
    if entries.len() > 0 {
        let head = entries.drop_last();
        let rest = alive_at(head, now);
        let out = alive_at(entries, now);
        let last = entries.last();
        lemma_distinct_prefix(entries);
        lemma_alive_at(head, now);
        lemma_kept(entries, rest, out);
        if last.alive(now) {
            assert(out.drop_last() =~= rest);
        }
        assert(table(out) =~= unexpired(table(entries), now));
        if out.len() == entries.len() {
            assert(out =~= entries);
        }
        if unexpired(table(entries), now) =~= table(entries) {
            assert(table(entries).dom().contains(last.slot()));
            assert(table(entries)[last.slot()] == last.note());
            assert(unexpired(table(entries), now).dom().contains(last.slot()));
            assert(last.alive(now));
            assert forall|slot: (u64, Seq<char>)|
                table(head).dom().contains(slot) implies #[trigger] unexpired(
                table(head),
                now,
            ).dom().contains(slot) by {
                assert(table(entries).dom().contains(slot));
                assert(table(entries)[slot] == table(head)[slot]);
                assert(unexpired(table(entries), now).dom().contains(slot));
            }
            assert(unexpired(table(head), now) =~= table(head));
        }
    } else {
        assert(unexpired(table(entries), now) =~= table(entries));
    }
}

impl MetadataStore {
    pub open spec fn wf(self) -> bool {
        slots_distinct(self.entries@)
    }

    pub fn new() -> (store: MetadataStore)
        ensures
            store@ == Map::<(u64, Seq<char>), Note>::empty(),
            store.wf(),
    {
        MetadataStore { entries: Vec::new() }
    }

    /// The value in a slot.
    pub fn get(&self, owner: u64, key: &str) -> (value: Option<&String>)
        requires
            self.wf(),
        ensures
            value is Some <==> self@.dom().contains((owner, key@)),
            value matches Some(text) ==> text@ == self@[(owner, key@)].value,
    {
        let mut i: usize = 0;
        while i < self.entries.len()
            invariant
                self.wf(),
                i <= self.entries@.len(),
                forall|j: int| 0 <= j < i ==> (#[trigger] self.entries@[j]).slot() != (owner, key@),
            decreases self.entries@.len() - i,
        {
            if self.entries[i].owner == owner && same_text(self.entries[i].key.as_str(), key) {
                proof {
                    lemma_table_entry(self.entries@, i as int);
                }
                return Some(&self.entries[i].value);
            }
            i += 1;
        }
        proof {
            if self@.dom().contains((owner, key@)) {
                lemma_stored(self.entries@, (owner, key@));
            }
        }
        None
    }

    /// Empty a slot.
    pub fn remove(&mut self, owner: u64, key: &str)
        requires
            old(self).wf(),
        ensures
            final(self).wf(),
            final(self)@ == old(self)@.remove((owner, key@)),
            final(self).entries@ == without_slot(old(self).entries@, (owner, key@)),
    {
        let ghost slot = (owner, key@);
        let mut kept: Vec<MetaEntry> = Vec::new();
        let mut all: Vec<MetaEntry> = Vec::new();
        std::mem::swap(&mut all, &mut self.entries);
        let ghost before = all@;
        let n: usize = all.len();
        let mut i: usize = 0;
        assert(before.take(0) =~= Seq::<MetaEntry>::empty());
        while i < n
            invariant
                i <= n,
                n == before.len(),
                slot == (owner, key@),
                all@ == before.skip(i as int),
                kept@ == without_slot(before.take(i as int), slot),
            decreases n - i,
        {
            let entry = all.remove(0);
            proof {
                assert(before.take(i + 1).drop_last() =~= before.take(i as int));
                assert(before.take(i + 1).last() == entry);
                assert(all@ =~= before.skip(i + 1));
            }
            if !(entry.owner == owner && same_text(entry.key.as_str(), key)) {
                kept.push(entry);
            }
            i += 1;
        }
        assert(before.take(n as int) =~= before);
        proof {
            lemma_without_slot(before, slot);
        }
        self.entries = kept;
    }

    /// Fill a slot.
    pub fn insert(&mut self, owner: u64, key: String, value: String, expires: Option<u64>)
        requires
            old(self).wf(),
        ensures
            final(self).wf(),
            final(self)@ == old(self)@.insert(
                (owner, key@),
                (Note { value: value@, expires }),
            ),
    {
        let ghost slot = (owner, key@);
        proof {
            lemma_without_slot(self.entries@, slot);
        }
        self.remove(owner, key.as_str());
        let ghost mid = self.entries@;
        self.entries.push(MetaEntry { owner, key, value, expires });
        assert(self.entries@.drop_last() =~= mid);
        assert(self@ =~= old(self)@.insert(slot, Note { value: value@, expires }));
    }

    /// Empty every slot of an owner.
    pub fn remove_owner(&mut self, owner: u64)
        requires
            old(self).wf(),
        ensures
            final(self).wf(),
            final(self)@ == forget_owner(old(self)@, owner),
    {
        let mut kept: Vec<MetaEntry> = Vec::new();
        let mut all: Vec<MetaEntry> = Vec::new();
        std::mem::swap(&mut all, &mut self.entries);
        let ghost before = all@;
        let n: usize = all.len();
        let mut i: usize = 0;
        assert(before.take(0) =~= Seq::<MetaEntry>::empty());
        while i < n
            invariant
                i <= n,
                n == before.len(),
                all@ == before.skip(i as int),
                kept@ == without_owner(before.take(i as int), owner),
            decreases n - i,
        {
            let entry = all.remove(0);
            proof {
                assert(before.take(i + 1).drop_last() =~= before.take(i as int));
                assert(before.take(i + 1).last() == entry);
                assert(all@ =~= before.skip(i + 1));
            }
            if entry.owner != owner {
                kept.push(entry);
            }
            i += 1;
        }
        assert(before.take(n as int) =~= before);
        proof {
            lemma_without_owner(before, owner);
        }
        self.entries = kept;
    }

    /// Drop the notes that have expired at `now`; whether there were any.
    pub fn expire(&mut self, now: u64) -> (changed: bool)
        requires
            old(self).wf(),
        ensures
            final(self).wf(),
            final(self)@ == unexpired(old(self)@, now),
            changed == (final(self)@ != old(self)@),
    {
        let mut kept: Vec<MetaEntry> = Vec::new();
        let mut all: Vec<MetaEntry> = Vec::new();
        std::mem::swap(&mut all, &mut self.entries);
        let ghost before = all@;
        let n: usize = all.len();
        let mut i: usize = 0;
        assert(before.take(0) =~= Seq::<MetaEntry>::empty());
        while i < n
            invariant
                i <= n,
                n == before.len(),
                all@ == before.skip(i as int),
                kept@ == alive_at(before.take(i as int), now),
            decreases n - i,
        {
            let entry = all.remove(0);
            proof {
                assert(before.take(i + 1).drop_last() =~= before.take(i as int));
                assert(before.take(i + 1).last() == entry);
                assert(all@ =~= before.skip(i + 1));
            }
            let alive = match entry.expires {
                Some(at) => at > now,
                None => true,
            };
            if alive {
                kept.push(entry);
            }
            i += 1;
        }
        assert(before.take(n as int) =~= before);
        proof {
            lemma_alive_at(before, now);
        }
        let changed = kept.len() != n;
        self.entries = kept;
        changed
    }
}

proof fn lemma_table_entry(entries: Seq<MetaEntry>, i: int)
    requires
        slots_distinct(entries),
        0 <= i < entries.len(),
    ensures
        table(entries).dom().contains(entries[i].slot()),
        table(entries)[entries[i].slot()] == entries[i].note(),
    decreases entries.len(),
{
    lemma_distinct_prefix(entries);
    if i < entries.len() - 1 {
        lemma_table_entry(entries.drop_last(), i);
        assert(entries.drop_last()[i] == entries[i]);
    }
}

/// A character that a metadata key may hold.
pub open spec fn key_char(c: char) -> bool {
    ('a' <= c <= 'z') || ('A' <= c <= 'Z') || ('0' <= c <= '9') || c == '-' || c == '_' || c == '.'
}

/// The characters of `s` that a key may hold, in order.
pub open spec fn key_chars(s: Seq<char>) -> Seq<char>
    decreases s.len(),
{
    if s.len() == 0 {
        s
    } else if key_char(s.last()) {
        key_chars(s.drop_last()).push(s.last())
    } else {
        key_chars(s.drop_last())
    }
}

/// At most the first `n` characters of `s`.
pub open spec fn at_most(s: Seq<char>, n: int) -> Seq<char> {
    if s.len() <= n {
        s
    } else {
        s.take(n)
    }
}

/// The key that is stored for `key`.
pub open spec fn clean_key(key: Seq<char>) -> Seq<char> {
    at_most(key_chars(trimmed(key)), MAX_KEY_CHARS as int)
}

/// The value that is stored for `value`.
pub open spec fn clean_value(value: Seq<char>) -> Seq<char> {
    at_most(trimmed(value), MAX_VALUE_CHARS as int)
}

proof fn lemma_key_chars_grow(s: Seq<char>, i: int, j: int)
    requires
        0 <= i <= j <= s.len(),
    ensures
        key_chars(s.take(i)).is_prefix_of(key_chars(s.take(j))),
    decreases j,
{
    if i < j {
        lemma_key_chars_grow(s, i, j - 1);
        assert(s.take(j).drop_last() =~= s.take(j - 1));
    }
}

/// Keep the characters that a key may hold, at most `MAX_KEY_CHARS` of them.
pub fn sanitize_metadata_key(key: &str) -> (out: String)
    ensures
        out@ == clean_key(key@),
        out@.len() <= MAX_KEY_CHARS,
        forall|i: int| 0 <= i < out@.len() ==> key_char(#[trigger] out@[i]),
{
    let bare = trim(key);
    let chars = chars_of(bare.as_str());
    let ghost all = bare@;
    let mut out: Vec<char> = Vec::new();
    let mut i: usize = 0;
    assert(all.take(0) =~= Seq::<char>::empty());
    while i < chars.len() && out.len() < MAX_KEY_CHARS
        invariant
            i <= chars@.len(),
            chars@ == all,
            out@.len() <= MAX_KEY_CHARS,
            out@ == key_chars(all.take(i as int)),
            forall|j: int| 0 <= j < out@.len() ==> key_char(#[trigger] out@[j]),
        decreases chars@.len() - i,
    {
        let c: char = chars[i];
        assert(all.take(i + 1).drop_last() =~= all.take(i as int));
        if ('a' <= c && c <= 'z') || ('A' <= c && c <= 'Z') || ('0' <= c && c <= '9') || c == '-'
            || c == '_' || c == '.' {
            out.push(c);
        }
        i += 1;
    }
    proof {
        lemma_key_chars_grow(all, i as int, all.len() as int);
        assert(all.take(all.len() as int) =~= all);
        let full = key_chars(all);
        assert(out@ =~= at_most(full, MAX_KEY_CHARS as int)) by {
            if i < chars@.len() {
                assert(out@.len() == MAX_KEY_CHARS);
                assert(out@ =~= full.take(MAX_KEY_CHARS as int));
            }
        }
    }
    string_of(out.as_slice())
}

/// The value that is stored for `value`: without the white space around it and
/// cut to `MAX_VALUE_CHARS`.
pub fn sanitize_metadata_value(value: &str) -> (out: String)
    ensures
        out@ == clean_value(value@),
{
    let bare = trim(value);
    let mut chars = chars_of(bare.as_str());
    if chars.len() > MAX_VALUE_CHARS {
        chars.truncate(MAX_VALUE_CHARS);
    }
    string_of(chars.as_slice())
}

/// When a note with this lifetime expires.
pub open spec fn expiry(now: u64, ttl_seconds: Option<u64>) -> Option<u64> {
    match ttl_seconds {
        Some(seconds) => Some(
            (now + 1000 * (if seconds < 1 {
                1
            } else if seconds > MAX_TTL_SECONDS {
                MAX_TTL_SECONDS as int
            } else {
                seconds as int
            })) as u64,
        ),
        None => None,
    }
}

/// Set, or with an empty value clear, a note. A key that holds nothing usable
/// changes nothing; whether the store was written.
pub fn set_metadata(
    store: &mut MetadataStore,
    owner: u64,
    key: &str,
    value: &str,
    ttl_seconds: Option<u64>,
    now: u64,
) -> (written: bool)
    requires
        old(store).wf(),
        now <= u64::MAX - 1000 * MAX_TTL_SECONDS,
    ensures
        final(store).wf(),
        written == (clean_key(key@).len() > 0),
        final(store)@ == if !written {
            old(store)@
        } else if clean_value(value@).len() == 0 {
            old(store)@.remove((owner, clean_key(key@)))
        } else {
            old(store)@.insert(
                (owner, clean_key(key@)),
                (Note { value: clean_value(value@), expires: expiry(now, ttl_seconds) }),
            )
        },
{
    let key = sanitize_metadata_key(key);
    let value = sanitize_metadata_value(value);
    if key.as_str().is_empty() {
        return false;
    }
    if value.as_str().is_empty() {
        store.remove(owner, key.as_str());
    } else {
        let expires: Option<u64> = match ttl_seconds {
            Some(seconds) => {
                let seconds: u64 = if seconds < 1 {
                    1
                } else if seconds > MAX_TTL_SECONDS {
                    MAX_TTL_SECONDS
                } else {
                    seconds
                };
                Some(now + 1000 * seconds)
            },
            None => None,
        };
        store.insert(owner, key, value, expires);
    }
    true
}

} // verus!
