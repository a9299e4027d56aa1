use vstd::prelude::*;

use crate::duration::AbsoluteDuration;
use crate::units::{
    NANOS_IN_AN_HOUR, NANOS_IN_A_DAY, NANOS_IN_A_MICROSECOND, NANOS_IN_A_MILLISECOND,
    NANOS_IN_A_MINUTE, NANOS_IN_A_SECOND, NANOS_IN_A_WEEK,
};

verus! {

/// One of the unit fields that a decoded duration may be given in.
#[derive(Debug, Clone, Copy, PartialEq, Eq, Structural)]
pub enum Field {
    Nanos,
    Micros,
    Millis,
    Secs,
    Mins,
    Hours,
    Days,
    Weeks,
}

/// The key that names a field.
pub open spec fn field_name(f: Field) -> Seq<char> {
    match f {
        Field::Nanos => "nanoseconds"@,
        Field::Micros => "microseconds"@,
        Field::Millis => "milliseconds"@,
        Field::Secs => "seconds"@,
        Field::Mins => "minutes"@,
        Field::Hours => "hours"@,
        Field::Days => "days"@,
        Field::Weeks => "weeks"@,
    }
}

/// Nanoseconds in one unit of a field.
pub open spec fn field_scale(f: Field) -> nat {
    match f {
        Field::Nanos => 1,
        Field::Micros => NANOS_IN_A_MICROSECOND as nat,
        Field::Millis => NANOS_IN_A_MILLISECOND as nat,
        Field::Secs => NANOS_IN_A_SECOND as nat,
        Field::Mins => NANOS_IN_A_MINUTE as nat,
        Field::Hours => NANOS_IN_AN_HOUR as nat,
        Field::Days => NANOS_IN_A_DAY as nat,
        Field::Weeks => NANOS_IN_A_WEEK as nat,
    }
}

/// The field that a key names, if it names one.
pub open spec fn field_of_name(s: Seq<char>) -> Option<Field> {
    if s == field_name(Field::Nanos) {
        Some(Field::Nanos)
    } else if s == field_name(Field::Micros) {
        Some(Field::Micros)
    } else if s == field_name(Field::Millis) {
        Some(Field::Millis)
    } else if s == field_name(Field::Secs) {
        Some(Field::Secs)
    } else if s == field_name(Field::Mins) {
        Some(Field::Mins)
    } else if s == field_name(Field::Hours) {
        Some(Field::Hours)
    } else if s == field_name(Field::Days) {
        Some(Field::Days)
    } else if s == field_name(Field::Weeks) {
        Some(Field::Weeks)
    } else {
        None
    }
}

/// A key names at most one field: the one whose name it is.
pub proof fn lemma_field_of_name_is_named(s: Seq<char>)
    ensures
        field_of_name(s) matches Some(f) ==> s == field_name(f),
{
}

impl Field {
    /// The key that names this field.
    pub fn name(&self) -> (r: &'static str)
        ensures
            r@ == field_name(*self),
    {
        match self {
            Field::Nanos => "nanoseconds",
            Field::Micros => "microseconds",
            Field::Millis => "milliseconds",
            Field::Secs => "seconds",
            Field::Mins => "minutes",
            Field::Hours => "hours",
            Field::Days => "days",
            Field::Weeks => "weeks",
        }
    }

    /// Nanoseconds in one unit of this field.
    pub fn nanos_per_unit(&self) -> (r: u128)
        ensures
            r == field_scale(*self),
    {
        match self {
            Field::Nanos => 1,
            Field::Micros => NANOS_IN_A_MICROSECOND,
            Field::Millis => NANOS_IN_A_MILLISECOND,
            Field::Secs => NANOS_IN_A_SECOND,
            Field::Mins => NANOS_IN_A_MINUTE,
            Field::Hours => NANOS_IN_AN_HOUR,
            Field::Days => NANOS_IN_A_DAY,
            Field::Weeks => NANOS_IN_A_WEEK,
        }
    }

    fn is_named(&self, key: &String) -> (r: bool)
        ensures
            r == (key@ == field_name(*self)),
    {
        *key == self.name().to_owned()
    }

    /// The field that `key` names, matched exactly and case-sensitively.
    pub fn from_name(key: &str) -> (r: Option<Field>)
        ensures
            r == field_of_name(key@),
    {
        let key = key.to_owned();
        if Field::Nanos.is_named(&key) {
            Some(Field::Nanos)
        } else if Field::Micros.is_named(&key) {
            Some(Field::Micros)
        } else if Field::Millis.is_named(&key) {
            Some(Field::Millis)
        } else if Field::Secs.is_named(&key) {
            Some(Field::Secs)
        } else if Field::Mins.is_named(&key) {
            Some(Field::Mins)
        } else if Field::Hours.is_named(&key) {
            Some(Field::Hours)
        } else if Field::Days.is_named(&key) {
            Some(Field::Days)
        } else if Field::Weeks.is_named(&key) {
            Some(Field::Weeks)
        } else {
            None
        }
    }
}

/// Why a duration could not be decoded.
#[derive(Debug, PartialEq, Eq)]
pub enum DecodeError {
    /// A key that names no field.
    UnknownField(String),
    /// A field given a second time.
    DuplicateField(Field),
    /// No field given at all.
    MissingAnyField,
}

/// The fields seen so far while decoding one duration: at most one value
/// for each field.
pub struct DurationFields {
    nanos: Option<u64>,
    micros: Option<u64>,
    millis: Option<u64>,
    secs: Option<u64>,
    mins: Option<u64>,
    hours: Option<u64>,
    days: Option<u64>,
    weeks: Option<u64>,
}

/// The nanoseconds that `value` units of field `f` make.
pub open spec fn scaled(f: Field, value: u64) -> nat {
    value as nat * field_scale(f)
}

impl DurationFields {
    /// The value recorded for field `f`, if any.
    pub closed spec fn slot(&self, f: Field) -> Option<u64> {
        match f {
            Field::Nanos => self.nanos,
            Field::Micros => self.micros,
            Field::Millis => self.millis,
            Field::Secs => self.secs,
            Field::Mins => self.mins,
            Field::Hours => self.hours,
            Field::Days => self.days,
            Field::Weeks => self.weeks,
        }
    }

    /// The nanoseconds that field `f` contributes: nothing when it is absent.
    pub open spec fn slot_nanos(&self, f: Field) -> nat {
        match self.slot(f) {
            Some(v) => scaled(f, v),
            None => 0,
        }
    }

    /// Whether no field has been recorded.
    pub open spec fn is_empty(&self) -> bool {
        forall|f: Field| #[trigger] self.slot(f) is None
    }

    /// The sum, over the recorded fields, of each value scaled to nanoseconds.
    pub open spec fn total(&self) -> nat {
        self.slot_nanos(Field::Nanos) + self.slot_nanos(Field::Micros) + self.slot_nanos(
            Field::Millis,
        ) + self.slot_nanos(Field::Secs) + self.slot_nanos(Field::Mins) + self.slot_nanos(
            Field::Hours,
        ) + self.slot_nanos(Field::Days) + self.slot_nanos(Field::Weeks)
    }

    /// No field recorded yet.
    pub fn new() -> (r: Self)
        ensures
            r.is_empty(),
    {
        DurationFields {
            nanos: None,
            micros: None,
            millis: None,
            secs: None,
            mins: None,
            hours: None,
            days: None,
            weeks: None,
        }
    }

    /// The value recorded for field `f`, if any.
    pub fn get(&self, f: Field) -> (r: Option<u64>)
        ensures
            r == self.slot(f),
    {
        match f {
            Field::Nanos => self.nanos,
            Field::Micros => self.micros,
            Field::Millis => self.millis,
            Field::Secs => self.secs,
            Field::Mins => self.mins,
            Field::Hours => self.hours,
            Field::Days => self.days,
            Field::Weeks => self.weeks,
        }
    }

    /// Checks the next key: it must name a field that has not been recorded.
    pub fn accept_key(&self, key: &str) -> (r: Result<Field, DecodeError>)
        ensures
            field_of_name(key@) is None ==> (r matches Err(DecodeError::UnknownField(name))
                && name@ == key@),
            field_of_name(key@) matches Some(f) ==> if self.slot(f) is Some {
                r == Err::<Field, DecodeError>(DecodeError::DuplicateField(f))
            } else {
                r == Ok::<Field, DecodeError>(f)
            },
    {
        match Field::from_name(key) {
            None => Err(DecodeError::UnknownField(key.to_owned())),
            Some(f) => {
                if self.get(f).is_some() {
                    Err(DecodeError::DuplicateField(f))
                } else {
                    Ok(f)
                }
            },
        }
    }

    /// Records `value` for field `f`, leaving the other fields as they were.
    pub fn record(&mut self, f: Field, value: u64)
        ensures
            final(self).slot(f) == Some(value),
            forall|g: Field| g != f ==> #[trigger] final(self).slot(g) == old(self).slot(g),
    {
        match f {
            Field::Nanos => self.nanos = Some(value),
            Field::Micros => self.micros = Some(value),
            Field::Millis => self.millis = Some(value),
            Field::Secs => self.secs = Some(value),
            Field::Mins => self.mins = Some(value),
            Field::Hours => self.hours = Some(value),
            Field::Days => self.days = Some(value),
            Field::Weeks => self.weeks = Some(value),
        }
    }

    /// The nanoseconds that field `f` contributes.
    fn contribution(&self, f: Field) -> (r: u128)
        ensures
            r == self.slot_nanos(f),
            r <= u64::MAX as nat * field_scale(f),
    {
        match self.get(f) {
            Some(v) => {
                let scale = f.nanos_per_unit();
                assert(v * scale <= u64::MAX as nat * scale) by (nonlinear_arith)
                    requires
                        v <= u64::MAX,
                ;
                v as u128 * scale
            },
            None => 0,
        }
    }

    /// Ends the decoding: the duration that the recorded fields add up to,
    /// or an error when none was recorded.
    pub fn finish(&self) -> (r: Result<AbsoluteDuration, DecodeError>)
        ensures
            self.is_empty() ==> r == Err::<AbsoluteDuration, DecodeError>(
                DecodeError::MissingAnyField,
            ),
            !self.is_empty() ==> (r matches Ok(d) && d@ == self.total()),
    {
        if self.nanos.is_none() && self.micros.is_none() && self.millis.is_none()
            && self.secs.is_none() && self.mins.is_none() && self.hours.is_none()
            && self.days.is_none() && self.weeks.is_none() {
            assert forall|f: Field| #[trigger] self.slot(f) is None by {}
            return Err(DecodeError::MissingAnyField);
        }
        assert(!self.is_empty()) by {
            if self.nanos.is_some() {
                assert(self.slot(Field::Nanos) is Some);
            } else if self.micros.is_some() {
                assert(self.slot(Field::Micros) is Some);
            } else if self.millis.is_some() {
                assert(self.slot(Field::Millis) is Some);
            } else if self.secs.is_some() {
                assert(self.slot(Field::Secs) is Some);
            } else if self.mins.is_some() {
                assert(self.slot(Field::Mins) is Some);
            } else if self.hours.is_some() {
                assert(self.slot(Field::Hours) is Some);
            } else if self.days.is_some() {
                assert(self.slot(Field::Days) is Some);
            } else {
                assert(self.slot(Field::Weeks) is Some);
            }
        }
        let mut nanos: u128 = self.contribution(Field::Nanos);
        nanos = nanos + self.contribution(Field::Micros);
        nanos = nanos + self.contribution(Field::Millis);
        nanos = nanos + self.contribution(Field::Secs);
        nanos = nanos + self.contribution(Field::Mins);
        nanos = nanos + self.contribution(Field::Hours);
        nanos = nanos + self.contribution(Field::Days);
        nanos = nanos + self.contribution(Field::Weeks);
        Ok(AbsoluteDuration::from_nanos(nanos))
    }
}

/// The nanoseconds that one entry stands for: its value scaled by the unit
/// that its key names, or nothing when the key names none.
pub open spec fn entry_nanos(entry: (String, u64)) -> nat {
    match field_of_name(entry.0@) {
        Some(f) => scaled(f, entry.1),
        None => 0,
    }
}

/// The sum of what each entry stands for.
pub open spec fn entries_nanos(entries: Seq<(String, u64)>) -> nat
    decreases entries.len(),
{
    if entries.len() == 0 {
        0
    } else {
        entries_nanos(entries.drop_last()) + entry_nanos(entries.last())
    }
}

/// Whether the key of entry `i` also stands on an earlier entry.
pub open spec fn key_repeated(entries: Seq<(String, u64)>, i: int) -> bool {
    exists|j: int| 0 <= j < i && #[trigger] entries[j].0@ == entries[i].0@
}

/// Whether entry `i` names a field and is that field's first entry.
pub open spec fn entry_accepted(entries: Seq<(String, u64)>, i: int) -> bool {
    field_of_name(entries[i].0@) is Some && !key_repeated(entries, i)
}

/// Whether each of the first `n` entries is accepted.
pub open spec fn accepted_before(entries: Seq<(String, u64)>, n: int) -> bool {
    forall|i: int| 0 <= i < n ==> #[trigger] entry_accepted(entries, i)
}

/// Whether some of the first `n` entries names field `f`.
pub open spec fn field_seen(entries: Seq<(String, u64)>, n: int, f: Field) -> bool {
    exists|j: int| 0 <= j < n && #[trigger] field_of_name(entries[j].0@) == Some(f)
}

proof fn lemma_entries_nanos_step(e: Seq<(String, u64)>, i: int)
    requires
        0 <= i < e.len(),
    ensures
        entries_nanos(e.take(i + 1)) == entries_nanos(e.take(i)) + entry_nanos(e[i]),
{
    assert(e.take(i + 1).drop_last() =~= e.take(i));
}

proof fn lemma_record_total(before: DurationFields, after: DurationFields, f: Field, v: u64)
    requires
        before.slot(f) is None,
        after.slot(f) == Some(v),
        forall|g: Field| g != f ==> #[trigger] after.slot(g) == before.slot(g),
    ensures
        after.total() == before.total() + scaled(f, v),
{
    assert(after.slot(Field::Nanos) == before.slot(Field::Nanos) || f == Field::Nanos);
    assert(after.slot(Field::Micros) == before.slot(Field::Micros) || f == Field::Micros);
    assert(after.slot(Field::Millis) == before.slot(Field::Millis) || f == Field::Millis);
    assert(after.slot(Field::Secs) == before.slot(Field::Secs) || f == Field::Secs);
    assert(after.slot(Field::Mins) == before.slot(Field::Mins) || f == Field::Mins);
    assert(after.slot(Field::Hours) == before.slot(Field::Hours) || f == Field::Hours);
    assert(after.slot(Field::Days) == before.slot(Field::Days) || f == Field::Days);
    assert(after.slot(Field::Weeks) == before.slot(Field::Weeks) || f == Field::Weeks);
}

proof fn lemma_seen_step(e: Seq<(String, u64)>, i: int, f: Field, g: Field)
    requires
        0 <= i < e.len(),
        field_of_name(e[i].0@) == Some(f),
    ensures
        field_seen(e, i + 1, g) <==> (g == f || field_seen(e, i, g)),
{
    if field_seen(e, i + 1, g) && g != f {
        let j = choose|j: int| 0 <= j < i + 1 && #[trigger] field_of_name(e[j].0@) == Some(g);
        assert(j < i);
    }
    if field_seen(e, i, g) {
        let j = choose|j: int| 0 <= j < i && #[trigger] field_of_name(e[j].0@) == Some(g);
        assert(0 <= j < i + 1);
    }
    if g == f {
        assert(field_of_name(e[i].0@) == Some(g));
    }
}

proof fn lemma_repeated_iff_seen(e: Seq<(String, u64)>, i: int, f: Field)
    requires
        0 <= i < e.len(),
        field_of_name(e[i].0@) == Some(f),
    ensures
        key_repeated(e, i) <==> field_seen(e, i, f),
{
    lemma_field_of_name_is_named(e[i].0@);
    if key_repeated(e, i) {
        let j = choose|j: int| 0 <= j < i && #[trigger] e[j].0@ == e[i].0@;
        assert(field_of_name(e[j].0@) == Some(f));
    }
    if field_seen(e, i, f) {
        let j = choose|j: int| 0 <= j < i && #[trigger] field_of_name(e[j].0@) == Some(f);
        lemma_field_of_name_is_named(e[j].0@);
        assert(e[j].0@ == e[i].0@);
    }
}

proof fn lemma_entries_nanos_concat(a: Seq<(String, u64)>, b: Seq<(String, u64)>)
    ensures
        entries_nanos(a + b) == entries_nanos(a) + entries_nanos(b),
    decreases b.len(),
{
    if b.len() == 0 {
        assert(a + b =~= a);
    } else {
        lemma_entries_nanos_concat(a, b.drop_last());
        assert((a + b).drop_last() =~= a + b.drop_last());
        assert((a + b).last() == b.last());
    }
}

proof fn lemma_entries_nanos_pair(x: (String, u64), y: (String, u64))
    ensures
        entries_nanos(seq![x, y]) == entry_nanos(x) + entry_nanos(y),
{
    let pair = seq![x, y];
    let one = seq![x];
    assert(pair.drop_last() =~= one);
    assert(one.drop_last() =~= Seq::<(String, u64)>::empty());
    assert(entries_nanos(one) == entries_nanos(one.drop_last()) + entry_nanos(one.last()));
    assert(entries_nanos(pair) == entries_nanos(pair.drop_last()) + entry_nanos(pair.last()));
}

/// Whether every entry names a field and no key comes twice.
pub open spec fn keys_known_and_distinct(entries: Seq<(String, u64)>) -> bool {
    &&& forall|i: int| 0 <= i < entries.len() ==> (#[trigger] field_of_name(entries[i].0@)) is Some
    &&& forall|i: int, j: int|
        0 <= i < j < entries.len() ==> #[trigger] entries[i].0@ != #[trigger] entries[j].0@
}

/// All entries are accepted exactly when each names a field and no key
/// comes twice.
pub proof fn lemma_accepted_iff_known_and_distinct(entries: Seq<(String, u64)>)
    ensures
        accepted_before(entries, entries.len() as int) <==> keys_known_and_distinct(entries),
{
    if accepted_before(entries, entries.len() as int) {
        assert forall|i: int| 0 <= i < entries.len() implies (#[trigger] field_of_name(
            entries[i].0@,
        )) is Some by {
            assert(entry_accepted(entries, i));
        }
        assert forall|i: int, j: int| 0 <= i < j < entries.len() implies #[trigger] entries[i].0@
            != #[trigger] entries[j].0@ by {
            assert(entry_accepted(entries, j));
            if entries[i].0@ == entries[j].0@ {
                assert(key_repeated(entries, j));
            }
        }
    }
    if keys_known_and_distinct(entries) {
        assert forall|i: int| 0 <= i < entries.len() implies #[trigger] entry_accepted(
            entries,
            i,
        ) by {
            assert(field_of_name(entries[i].0@) is Some);
            if key_repeated(entries, i) {
                let j = choose|j: int| 0 <= j < i && #[trigger] entries[j].0@ == entries[i].0@;
                assert(entries[j].0@ != entries[i].0@);
            }
        }
    }
}

/// The entries with the neighbours at `i` and `i + 1` exchanged.
pub open spec fn swap_neighbours(entries: Seq<(String, u64)>, i: int) -> Seq<(String, u64)> {
    entries.update(i, entries[i + 1]).update(i + 1, entries[i])
}

proof fn lemma_swap_keeps_known_and_distinct(t: Seq<(String, u64)>, i: int)
    requires
        0 <= i,
        i + 1 < t.len(),
        keys_known_and_distinct(t),
    ensures
        keys_known_and_distinct(swap_neighbours(t, i)),
{
    let u = swap_neighbours(t, i);
    let p = |k: int|
        if k == i {
            i + 1
        } else if k == i + 1 {
            i
        } else {
            k
        };
    assert forall|k: int| 0 <= k < u.len() implies (#[trigger] field_of_name(u[k].0@)) is Some by {
        assert(u[k] == t[p(k)]);
        assert(field_of_name(t[p(k)].0@) is Some);
    }
    assert forall|k: int, l: int| 0 <= k < l < u.len() implies #[trigger] u[k].0@
        != #[trigger] u[l].0@ by {
        assert(u[k] == t[p(k)]);
        assert(u[l] == t[p(l)]);
        if p(k) < p(l) {
            assert(t[p(k)].0@ != t[p(l)].0@);
        } else {
            assert(t[p(l)].0@ != t[p(k)].0@);
        }
    }
}

/// The order of the entries does not change a decoded duration: after two
/// neighbouring entries are exchanged, the entries are all accepted exactly
/// when they were before, and they add up to the same number of
/// nanoseconds. Any reordering is a series of such exchanges.
pub proof fn lemma_decode_ignores_order(entries: Seq<(String, u64)>, i: int)
    requires
        0 <= i,
        i + 1 < entries.len(),
    ensures
        accepted_before(swap_neighbours(entries, i), entries.len() as int) == accepted_before(
            entries,
            entries.len() as int,
        ),
        entries_nanos(swap_neighbours(entries, i)) == entries_nanos(entries),
{
    let e = entries;
    let s = swap_neighbours(e, i);
    let head = e.take(i);
    let tail = e.skip(i + 2);
    assert(e =~= head + seq![e[i], e[i + 1]] + tail);
    assert(s =~= head + seq![e[i + 1], e[i]] + tail);
    lemma_entries_nanos_concat(head + seq![e[i], e[i + 1]], tail);
    lemma_entries_nanos_concat(head, seq![e[i], e[i + 1]]);
    lemma_entries_nanos_concat(head + seq![e[i + 1], e[i]], tail);
    lemma_entries_nanos_concat(head, seq![e[i + 1], e[i]]);
    lemma_entries_nanos_pair(e[i], e[i + 1]);
    lemma_entries_nanos_pair(e[i + 1], e[i]);

    lemma_accepted_iff_known_and_distinct(e);
    lemma_accepted_iff_known_and_distinct(s);
    assert(s.len() == e.len());
    assert(swap_neighbours(s, i) =~= e);
    if keys_known_and_distinct(e) {
        lemma_swap_keeps_known_and_distinct(e, i);
    }
    if keys_known_and_distinct(s) {
        lemma_swap_keeps_known_and_distinct(s, i);
    }
}

/// Decodes a duration from its key/value entries, in the order given.
///
/// Each key must name one of the fields, and no field may come twice; the
/// first entry that breaks either rule is reported. When every entry is
/// accepted, at least one must be given, and the duration is the sum of
/// each value scaled to nanoseconds by the unit that its key names.
pub fn decode_entries(entries: &Vec<(String, u64)>) -> (r: Result<AbsoluteDuration, DecodeError>)
    ensures
        accepted_before(entries@, entries@.len() as int) && entries@.len() > 0 ==> (r matches Ok(
            d,
        ) && d@ == entries_nanos(entries@)),
        accepted_before(entries@, entries@.len() as int) && entries@.len() == 0 ==> r == Err::<
            AbsoluteDuration,
            DecodeError,
        >(DecodeError::MissingAnyField),
        r is Ok ==> accepted_before(entries@, entries@.len() as int) && entries@.len() > 0,
        r matches Err(DecodeError::UnknownField(name)) ==> exists|i: int|
            0 <= i < entries@.len() && accepted_before(entries@, i) && field_of_name(
                #[trigger] entries@[i].0@,
            ) is None && name@ == entries@[i].0@,
        r matches Err(DecodeError::DuplicateField(f)) ==> exists|i: int|
            0 <= i < entries@.len() && accepted_before(entries@, i) && field_of_name(
                #[trigger] entries@[i].0@,
            ) == Some(f) && key_repeated(entries@, i),
        r matches Err(DecodeError::MissingAnyField) ==> entries@.len() == 0,
{
    let ghost e = entries@;
    let mut fields = DurationFields::new();
    let mut i: usize = 0;
    while i < entries.len()
        invariant
            e == entries@,
            i <= e.len(),
            accepted_before(e, i as int),
            forall|f: Field| (#[trigger] fields.slot(f) is Some) <==> field_seen(e, i as int, f),
            fields.total() == entries_nanos(e.take(i as int)),
        decreases e.len() - i,
    {
        let entry = &entries[i];
        let f = match fields.accept_key(entry.0.as_str()) {
            Ok(f) => f,
            Err(err) => {
                proof {
                    if let Some(g) = field_of_name(e[i as int].0@) {
                        lemma_repeated_iff_seen(e, i as int, g);
                    }
                    assert(!entry_accepted(e, i as int));
                }
                return Err(err);
            },
        };
        let ghost before = fields;
        fields.record(f, entry.1);
        proof {
            lemma_repeated_iff_seen(e, i as int, f);
            assert(entry_accepted(e, i as int));
            assert(accepted_before(e, i + 1)) by {
                assert forall|k: int| 0 <= k < i + 1 implies #[trigger] entry_accepted(e, k) by {
                    if k < i {
                        assert(entry_accepted(e, k));
                    }
                }
            }
            lemma_entries_nanos_step(e, i as int);
            lemma_record_total(before, fields, f, entry.1);
            assert forall|g: Field| (#[trigger] fields.slot(g) is Some) <==> field_seen(
                e,
                i + 1,
                g,
            ) by {
                lemma_seen_step(e, i as int, f, g);
            }
        }
        i = i + 1;
    }
    proof {
        assert(e.take(e.len() as int) =~= e);
        if e.len() > 0 {
            assert(entry_accepted(e, 0));
            let g = field_of_name(e[0].0@).unwrap();
            assert(field_seen(e, e.len() as int, g));
            assert(fields.slot(g) is Some);
        } else {
            assert forall|g: Field| #[trigger] fields.slot(g) is None by {}
        }
    }
    fields.finish()
}

} // verus!
