//! The registry of backup jobs: an ordered collection of entries, the jobs
//! that are due, and the operations that add, delete and update entries.
use vstd::prelude::*;
use vstd::string::StringSliceAdditionalSpecFns;

use crate::errors::BackupError;
use crate::fingerprint::{fingerprint, xxh3_of};
use crate::time::{
    format_timestamp, is_past_days, parse_timestamp, parsed_utc_seconds, past_days, utc_text,
    UtcTime,
};

verus! {

/// One configured backup job.
pub struct BackupEntry {
    /// The name shown for the job.
    pub title: String,
    /// The root of the tree to back up.
    pub input: String,
    /// The root under which the replica is kept.
    pub output: String,
    /// When the job last ran, as `YYYY-MM-DDTHH:MM:SSZ`.
    pub last_backup: String,
    /// Days between runs.
    pub next_update: u32,
    /// Left empty; kept for the front end's table.
    pub delete_button: String,
    /// Left empty; kept for the front end's table.
    pub backup_button: String,
    /// The job's identifier, fixed when it was created.
    pub hash: String,
}

/// All configured backup jobs, in the order they were added.
pub struct Backups {
    pub backups: Vec<BackupEntry>,
}

impl BackupEntry {
    /// A copy of the entry.
    pub fn duplicate(&self) -> (r: BackupEntry)
        ensures
            r == *self,
    {
        BackupEntry {
            title: self.title.clone(),
            input: self.input.clone(),
            output: self.output.clone(),
            last_backup: self.last_backup.clone(),
            next_update: self.next_update,
            delete_button: self.delete_button.clone(),
            backup_button: self.backup_button.clone(),
            hash: self.hash.clone(),
        }
    }
}

impl Backups {
    /// A registry without entries.
    pub fn new() -> (r: Backups)
        ensures
            r.backups@.len() == 0,
    {
        Backups { backups: Vec::new() }
    }
}

/// The `last_backup` of an entry that never ran.
pub open spec fn never_run() -> Seq<char> {
    seq![
        '1', '9', '7', '1', '-', '0', '2', '-', '1', '0', 'T', '1', '3', ':', '0', '0', ':', '0',
        '0', 'Z',
    ]
}

/// Whether a job is due at `now`: its last run plus its interval in days lies
/// strictly before `now`.
pub open spec fn entry_due(e: BackupEntry, now: UtcTime) -> bool {
    match parsed_utc_seconds(e.last_backup@) {
        Some(t) => past_days(now, t as int, e.next_update as int),
        None => false,
    }
}

/// Whether every entry's `last_backup` parses.
pub open spec fn all_parse(s: Seq<BackupEntry>) -> bool {
    forall|i: int| 0 <= i < s.len() ==> (#[trigger] parsed_utc_seconds(s[i].last_backup@)) is Some
}

/// The entries that are due at `now`, in registry order.
pub open spec fn due_entries(s: Seq<BackupEntry>, now: UtcTime) -> Seq<BackupEntry>
    decreases s.len(),
{
    if s.len() == 0 {
        Seq::empty()
    } else {
        let prev = due_entries(s.drop_last(), now);
        if entry_due(s.last(), now) {
            prev.push(s.last())
        } else {
            prev
        }
    }
}

/// The jobs that are due at `now`, in registry order. Fails with `TimeParse`
/// when an entry's `last_backup` does not parse.
pub fn get_backups_to_update(backups: &Backups, now: &UtcTime) -> (r: Result<
    Vec<BackupEntry>,
    BackupError,
>)
    ensures
        match r {
            Ok(v) => all_parse(backups.backups@) && v@ == due_entries(backups.backups@, *now),
            Err(e) => !all_parse(backups.backups@) && e == BackupError::TimeParse,
        },
{
    let ghost s = backups.backups@;
    let mut result: Vec<BackupEntry> = Vec::new();
    let mut i: usize = 0;
    while i < backups.backups.len()
        invariant
            s == backups.backups@,
            i <= s.len(),
            all_parse(s.take(i as int)),
            result@ == due_entries(s.take(i as int), *now),
        decreases s.len() - i,
    {
        let entry = &backups.backups[i];
        assert(s.take(i + 1).drop_last() =~= s.take(i as int));
        match parse_timestamp(entry.last_backup.as_str()) {
            Ok(t) => {
                if is_past_days(now, t.seconds, entry.next_update) {
                    result.push(entry.duplicate());
                }
                assert(all_parse(s.take(i + 1))) by {
                    assert forall|j: int| 0 <= j < i + 1 implies (#[trigger] parsed_utc_seconds(
                        s.take(i + 1)[j].last_backup@,
                    )) is Some by {
                        if j < i {
                            assert(s.take(i + 1)[j] == s.take(i as int)[j]);
                        }
                    }
                }
            },
            Err(e) => {
                assert(!all_parse(s)) by {
                    assert(parsed_utc_seconds(s[i as int].last_backup@) is None);
                }
                return Err(e);
            },
        }
        i = i + 1;
    }
    assert(s.take(i as int) =~= s);
    Ok(result)
}

/// An entry of the registry is due at `now` exactly when its last run plus
/// its interval in days lies strictly before `now`.
pub proof fn lemma_due_iff_interval_passed(entries: Seq<BackupEntry>, e: BackupEntry, now: UtcTime)
    requires
        entries.contains(e),
        parsed_utc_seconds(e.last_backup@) is Some,
    ensures
        due_entries(entries, now).contains(e) <==> past_days(
            now,
            parsed_utc_seconds(e.last_backup@)->Some_0 as int,
            e.next_update as int,
        ),
{
    lemma_due_entries_are_due(entries, now);
    if entry_due(e, now) {
        lemma_due_entries_keep_due(entries, e, now);
    }
}

proof fn lemma_due_entries_are_due(entries: Seq<BackupEntry>, now: UtcTime)
    ensures
        forall|x: BackupEntry| due_entries(entries, now).contains(x) ==> entry_due(x, now),
    decreases entries.len(),
{
    if entries.len() > 0 {
        lemma_due_entries_are_due(entries.drop_last(), now);
        let prev = due_entries(entries.drop_last(), now);
        if entry_due(entries.last(), now) {
            assert forall|x: BackupEntry| prev.push(entries.last()).contains(x) implies entry_due(
                x,
                now,
            ) by {
                let k = choose|k: int| 0 <= k < prev.len() + 1 && prev.push(entries.last())[k] == x;
                if k < prev.len() {
                    assert(prev.contains(x));
                }
            }
        }
    }
}

proof fn lemma_due_entries_keep_due(entries: Seq<BackupEntry>, e: BackupEntry, now: UtcTime)
    requires
        entries.contains(e),
        entry_due(e, now),
    ensures
        due_entries(entries, now).contains(e),
    decreases entries.len(),
{
    let prev = due_entries(entries.drop_last(), now);
    if entries.last() == e {
        assert(prev.push(e)[prev.len() as int] == e);
    } else {
        let k = choose|k: int| 0 <= k < entries.len() && entries[k] == e;
        assert(entries.drop_last()[k] == e);
        lemma_due_entries_keep_due(entries.drop_last(), e, now);
        if entry_due(entries.last(), now) {
            let j = choose|j: int| 0 <= j < prev.len() && prev[j] == e;
            assert(prev.push(entries.last())[j] == e);
        }
    }
}

/// The character of a decimal digit.
pub open spec fn digit_char(d: nat) -> char {
    if d == 0 { '0' }
    else if d == 1 { '1' }
    else if d == 2 { '2' }
    else if d == 3 { '3' }
    else if d == 4 { '4' }
    else if d == 5 { '5' }
    else if d == 6 { '6' }
    else if d == 7 { '7' }
    else if d == 8 { '8' }
    else { '9' }
}

/// The decimal text of a number, without sign or leading zeros.
pub open spec fn decimal_text(n: nat) -> Seq<char>
    decreases n,
{
    if n < 10 {
        seq![digit_char(n)]
    } else {
        decimal_text(n / 10).push(digit_char(n % 10))
    }
}

fn digit(d: u64) -> (r: &'static str)
    requires
        d < 10,
    ensures
        r@ == seq![digit_char(d as nat)],
{
    proof {
        reveal_strlit("0");
        reveal_strlit("1");
        reveal_strlit("2");
        reveal_strlit("3");
        reveal_strlit("4");
        reveal_strlit("5");
        reveal_strlit("6");
        reveal_strlit("7");
        reveal_strlit("8");
        reveal_strlit("9");
    }
    if d == 0 { "0" }
    else if d == 1 { "1" }
    else if d == 2 { "2" }
    else if d == 3 { "3" }
    else if d == 4 { "4" }
    else if d == 5 { "5" }
    else if d == 6 { "6" }
    else if d == 7 { "7" }
    else if d == 8 { "8" }
    else { "9" }
}

/// The decimal text of `n`.
pub fn decimal(n: u64) -> (r: String)
    ensures
        r@ == decimal_text(n as nat),
    decreases n,
{
    if n < 10 {
        String::from_str(digit(n))
    } else {
        let mut r = decimal(n / 10);
        r.append(digit(n % 10));
        r
    }
}

/// The identifier of an entry created when the clock read `stamp`: the
/// decimal text of the fingerprint of the stamp's bytes.
pub fn entry_id(stamp: &str) -> (r: String)
    ensures
        r@ == decimal_text(xxh3_of(stamp.spec_bytes()) as nat),
{
    decimal(fingerprint(stamp.as_bytes()))
}

/// The entry with `last_backup` set to `date`, the rest kept.
pub open spec fn with_last_backup(e: BackupEntry, date: String) -> BackupEntry {
    BackupEntry { last_backup: date, ..e }
}

/// Whether an entry of `s` has the identifier `id`.
pub open spec fn has_id(s: Seq<BackupEntry>, id: Seq<char>) -> bool {
    exists|i: int| 0 <= i < s.len() && (#[trigger] s[i]).hash@ == id
}

/// Whether `i` is the first index of `s` whose entry has the identifier `id`.
pub open spec fn first_with_id(s: Seq<BackupEntry>, id: Seq<char>, i: int) -> bool {
    &&& 0 <= i < s.len()
    &&& s[i].hash@ == id
    &&& forall|j: int| 0 <= j < i ==> (#[trigger] s[j]).hash@ != id
}

/// The first index whose entry has the identifier `id`, if any.
pub fn position(backups: &Backups, id: &String) -> (r: Option<usize>)
    ensures
        match r {
            Some(i) => first_with_id(backups.backups@, id@, i as int),
            None => !has_id(backups.backups@, id@),
        },
{
    let mut i: usize = 0;
    while i < backups.backups.len()
        invariant
            i <= backups.backups@.len(),
            forall|j: int| 0 <= j < i ==> (#[trigger] backups.backups@[j]).hash@ != id@,
        decreases backups.backups@.len() - i,
    {
        if backups.backups[i].hash == *id {
            return Some(i);
        }
        i = i + 1;
    }
    None
}

/// Appends a job with the identifier `hash` that has never run.
pub fn push_entry(
    backups: &mut Backups,
    title: String,
    input: String,
    output: String,
    next_update: u32,
    hash: String,
)
    ensures
        final(backups).backups@.len() == old(backups).backups@.len() + 1,
        final(backups).backups@.drop_last() == old(backups).backups@,
        final(backups).backups@.last().title == title,
        final(backups).backups@.last().input == input,
        final(backups).backups@.last().output == output,
        final(backups).backups@.last().last_backup@ == never_run(),
        final(backups).backups@.last().next_update == next_update,
        final(backups).backups@.last().delete_button@.len() == 0,
        final(backups).backups@.last().backup_button@.len() == 0,
        final(backups).backups@.last().hash == hash,
{
    proof {
        reveal_strlit("1971-02-10T13:00:00Z");
    }
    let entry = BackupEntry {
        title,
        input,
        output,
        last_backup: String::from_str("1971-02-10T13:00:00Z"),
        next_update,
        delete_button: String::new(),
        backup_button: String::new(),
        hash,
    };
    backups.backups.push(entry);
    assert(backups.backups@.drop_last() =~= old(backups).backups@);
}

/// Appends a job that has never run; its identifier is derived from
/// `stamp`, the text of the local time at which it was created.
pub fn add_entry(
    backups: &mut Backups,
    title: String,
    input: String,
    output: String,
    next_update: u32,
    stamp: &str,
)
    ensures
        final(backups).backups@.len() == old(backups).backups@.len() + 1,
        final(backups).backups@.drop_last() == old(backups).backups@,
        final(backups).backups@.last().title == title,
        final(backups).backups@.last().input == input,
        final(backups).backups@.last().output == output,
        final(backups).backups@.last().last_backup@ == never_run(),
        final(backups).backups@.last().next_update == next_update,
        final(backups).backups@.last().delete_button@.len() == 0,
        final(backups).backups@.last().backup_button@.len() == 0,
        final(backups).backups@.last().hash@ == decimal_text(xxh3_of(stamp.spec_bytes()) as nat),
{
    let hash = entry_id(stamp);
    push_entry(backups, title, input, output, next_update, hash);
}

/// Deletes the first job with the identifier `hash`. Fails with `NotFound`,
/// leaving the registry as it was, when no job has it.
pub fn delete_entry(backups: &mut Backups, hash: &String) -> (r: Result<(), BackupError>)
    ensures
        !has_id(old(backups).backups@, hash@) ==> r == Err::<(), BackupError>(BackupError::NotFound)
            && final(backups).backups@ == old(backups).backups@,
        has_id(old(backups).backups@, hash@) ==> r == Ok::<(), BackupError>(()) && exists|i: int|
            first_with_id(old(backups).backups@, hash@, i) && final(backups).backups@ == old(
                backups,
            ).backups@.remove(i),
{
    match position(backups, hash) {
        Some(i) => {
            proof {
                assert(has_id(old(backups).backups@, hash@)) by {
                    assert(old(backups).backups@[i as int].hash@ == hash@);
                }
            }
            backups.backups.remove(i);
            Ok(())
        },
        None => Err(BackupError::NotFound),
    }
}

/// Sets the `last_backup` of the first job with the identifier `hash`. Fails
/// with `NotFound`, leaving the registry as it was, when no job has it.
pub fn change_date(backups: &mut Backups, hash: &String, new_date: String) -> (r: Result<
    (),
    BackupError,
>)
    ensures
        !has_id(old(backups).backups@, hash@) ==> r == Err::<(), BackupError>(BackupError::NotFound)
            && final(backups).backups@ == old(backups).backups@,
        has_id(old(backups).backups@, hash@) ==> r == Ok::<(), BackupError>(()) && exists|i: int|
            first_with_id(old(backups).backups@, hash@, i) && final(backups).backups@ == old(
                backups,
            ).backups@.update(i, with_last_backup(old(backups).backups@[i], new_date)),
{
    match position(backups, hash) {
        Some(i) => {
            proof {
                assert(has_id(old(backups).backups@, hash@)) by {
                    assert(old(backups).backups@[i as int].hash@ == hash@);
                }
            }
            let old_entry = &backups.backups[i];
            let entry = BackupEntry {
                title: old_entry.title.clone(),
                input: old_entry.input.clone(),
                output: old_entry.output.clone(),
                last_backup: new_date,
                next_update: old_entry.next_update,
                delete_button: old_entry.delete_button.clone(),
                backup_button: old_entry.backup_button.clone(),
                hash: old_entry.hash.clone(),
            };
            backups.backups.set(i, entry);
            Ok(())
        },
        None => Err(BackupError::NotFound),
    }
}

/// Records that the job with the identifier `hash` ran at `at`, written as
/// `YYYY-MM-DDTHH:MM:SSZ`. Fails with `TimeParse` when `at` cannot be written
/// and with `NotFound` when no job has the identifier; the registry is then
/// left as it was.
pub fn record_backup(backups: &mut Backups, hash: &String, at: &UtcTime) -> (r: Result<
    (),
    BackupError,
>)
    ensures
        utc_text(at.seconds) is None ==> r == Err::<(), BackupError>(BackupError::TimeParse)
            && final(backups).backups@ == old(backups).backups@,
        utc_text(at.seconds) is Some && !has_id(old(backups).backups@, hash@) ==> r == Err::<
            (),
            BackupError,
        >(BackupError::NotFound) && final(backups).backups@ == old(backups).backups@,
        utc_text(at.seconds) is Some && has_id(old(backups).backups@, hash@) ==> r == Ok::<
            (),
            BackupError,
        >(()) && exists|i: int, text: String|
            first_with_id(old(backups).backups@, hash@, i) && text@ == utc_text(at.seconds)->Some_0
                && final(backups).backups@ == old(backups).backups@.update(
                i,
                #[trigger] with_last_backup(old(backups).backups@[i], text),
            ),
{
    match format_timestamp(at) {
        Ok(text) => change_date(backups, hash, text),
        Err(e) => Err(e),
    }
}

} // verus!
