use vstd::prelude::*;
use crate::entry::FileEntry;
use crate::naming::{dest_seq, destination_name};
use crate::timestamp::{same_date, equals, ts_equal, ts_same_date, CaptureTimestamp};

verus! {

/// An instruction to move one file: produced for every entry that has an
/// extension and whose computed destination is still free.
pub struct RenameDirective {
    pub source: String,
    pub destination: String,
}

/// The sequencer's verdict on one entry of the sorted input.
pub enum Outcome {
    Rename(RenameDirective),
    SkipNoExtension { source: String },
    SkipDestinationExists { source: String, destination: String },
}

/// The same-day sequence number of entry `i` of the sorted input: 1 for the
/// first entry; reset to 1 when the date changes; incremented when the date
/// is the same but the timestamp differs; unchanged on an exact duplicate
/// timestamp, so indistinguishable entries share a number.
pub open spec fn counter_at(s: Seq<FileEntry>, i: int) -> int
    decreases i,
{
    if i <= 0 {
        1
    } else if !ts_same_date(s[i].timestamp, s[i - 1].timestamp) {
        1
    } else if !ts_equal(s[i].timestamp, s[i - 1].timestamp) {
        counter_at(s, i - 1) + 1
    } else {
        counter_at(s, i - 1)
    }
}

/// The destination file name of entry `i`, or `None` when its path has no
/// extension and the entry therefore claims no destination.
pub open spec fn dest_at(s: Seq<FileEntry>, i: int) -> Option<Seq<char>> {
    match s[i].extension {
        Some(e) => Some(dest_seq(s[i].timestamp, counter_at(s, i), e@)),
        None => None,
    }
}

/// The destination names already claimed by rename directives emitted for
/// entries before `i`, in order of emission. An entry claims its name only
/// when it actually receives a directive: skipped entries claim nothing.
pub open spec fn claimed_before(s: Seq<FileEntry>, disk: Seq<bool>, i: int) -> Seq<Seq<char>>
    decreases i,
{
    if i <= 0 {
        Seq::empty()
    } else {
        let c = claimed_before(s, disk, i - 1);
        match dest_at(s, i - 1) {
            Some(d) => if !disk[i - 1] && !c.contains(d) {
                c.push(d)
            } else {
                c
            },
            None => c,
        }
    }
}

/// What the sequencer owes entry `i`, given for each entry whether its
/// computed destination already existed on disk before the run: no
/// extension is reported as such; a destination present on disk or already
/// claimed in this run is reported as a collision; otherwise a rename
/// directive carries the computed destination.
pub open spec fn outcome_matches(s: Seq<FileEntry>, disk: Seq<bool>, i: int, o: Outcome) -> bool {
    match dest_at(s, i) {
        None => o matches Outcome::SkipNoExtension { source } && source@ == s[i].path@,
        Some(d) => if disk[i] || claimed_before(s, disk, i).contains(d) {
            o matches Outcome::SkipDestinationExists { source, destination }
                && source@ == s[i].path@ && destination@ == d
        } else {
            o matches Outcome::Rename(rd) && rd.source@ == s[i].path@ && rd.destination@ == d
        },
    }
}

/// The views of a sequence of names.
pub open spec fn name_views(q: Seq<String>) -> Seq<Seq<char>> {
    Seq::new(q.len(), |i: int| q[i]@)
}

/// The counter stays between 1 and the entry's position plus one.
pub proof fn lemma_counter_at_bound(s: Seq<FileEntry>, i: int)
    requires
        0 <= i < s.len(),
    ensures
        1 <= counter_at(s, i) <= i + 1,
    decreases i,
{
    if i > 0 {
        lemma_counter_at_bound(s, i - 1);
    }
}

/// Counter reset law: an entry whose date differs from its predecessor's
/// (in particular the first entry of each calendar date of a sorted run)
/// has counter 1.
pub proof fn lemma_counter_reset(s: Seq<FileEntry>, i: int)
    requires
        0 <= i < s.len(),
        i == 0 || !ts_same_date(s[i].timestamp, s[i - 1].timestamp),
    ensures
        counter_at(s, i) == 1,
{
}

/// Duplicate-timestamp law: adjacent entries with equal timestamps receive
/// the same counter value.
pub proof fn lemma_duplicate_counter(s: Seq<FileEntry>, i: int)
    requires
        0 < i < s.len(),
        ts_equal(s[i].timestamp, s[i - 1].timestamp),
    ensures
        counter_at(s, i) == counter_at(s, i - 1),
{
}

/// No-extension law: an entry without an extension never receives a rename
/// directive and never claims a destination name.
pub proof fn lemma_no_extension(s: Seq<FileEntry>, disk: Seq<bool>, i: int, o: Outcome)
    requires
        0 <= i < s.len(),
        s[i].extension is None,
        outcome_matches(s, disk, i, o),
    ensures
        !(o matches Outcome::Rename(_)),
        claimed_before(s, disk, i + 1) == claimed_before(s, disk, i),
{
}

/// Two outcomes that carry the same text.
pub open spec fn outcome_view_equal(a: Outcome, b: Outcome) -> bool {
    match (a, b) {
        (Outcome::Rename(x), Outcome::Rename(y)) => x.source@ == y.source@
            && x.destination@ == y.destination@,
        (Outcome::SkipNoExtension { source: xs }, Outcome::SkipNoExtension { source: ys }) =>
            xs@ == ys@,
        (
            Outcome::SkipDestinationExists { source: xs, destination: xd },
            Outcome::SkipDestinationExists { source: ys, destination: yd },
        ) => xs@ == ys@ && xd@ == yd@,
        _ => false,
    }
}

/// Determinism law: any two outcome sequences that meet the sequencer's
/// contract on the same sorted input and the same disk state agree entry by
/// entry.
pub proof fn lemma_sequence_deterministic(
    s: Seq<FileEntry>,
    disk: Seq<bool>,
    o1: Seq<Outcome>,
    o2: Seq<Outcome>,
)
    requires
        o1.len() == s.len(),
        o2.len() == s.len(),
        forall|i: int| 0 <= i < s.len() ==> outcome_matches(s, disk, i, #[trigger] o1[i]),
        forall|i: int| 0 <= i < s.len() ==> outcome_matches(s, disk, i, #[trigger] o2[i]),
    ensures
        forall|i: int| 0 <= i < s.len() ==> outcome_view_equal(#[trigger] o1[i], #[trigger] o2[i]),
{
    assert forall|i: int| 0 <= i < s.len() implies outcome_view_equal(#[trigger] o1[i], #[trigger] o2[i]) by {
        assert(outcome_matches(s, disk, i, o1[i]));
        assert(outcome_matches(s, disk, i, o2[i]));
    }
}

fn contains_name(v: &Vec<String>, x: &String) -> (r: bool)
    ensures
        r == name_views(v@).contains(x@),
{
    let mut j: usize = 0;
    while j < v.len()
        invariant
            0 <= j <= v@.len(),
            forall|k: int| 0 <= k < j ==> v@[k]@ != x@,
        decreases v@.len() - j,
    {
        if v[j] == *x {
            proof {
                assert(name_views(v@)[j as int] == x@);
            }
            return true;
        }
        j = j + 1;
    }
    proof {
        assert forall|k: int| 0 <= k < name_views(v@).len() implies name_views(v@)[k] != x@ by {
            assert(v@[k]@ != x@);
        }
    }
    false
}

/// The destination name each entry of the sorted input would receive, in
/// input order: `None` for an entry without an extension. This is the pure
/// counter-and-name part of the sequencer; it needs no knowledge of the
/// disk.
pub fn plan_destinations(entries: &Vec<FileEntry>) -> (r: Vec<Option<String>>)
    ensures
        r@.len() == entries@.len(),
        forall|i: int| 0 <= i < entries@.len() ==> (match (#[trigger] r@[i], dest_at(entries@, i)) {
            (Some(x), Some(d)) => x@ == d,
            (None, None) => true,
            _ => false,
        }),
{
    let mut out: Vec<Option<String>> = Vec::new();
    let mut prev: Option<CaptureTimestamp> = None;
    let mut counter: usize = 1;
    let mut i: usize = 0;
    while i < entries.len()
        invariant
            0 <= i <= entries@.len(),
            out@.len() == i,
            i == 0 ==> prev is None,
            i > 0 ==> prev == Some(entries@[i - 1].timestamp) && counter == counter_at(
                entries@, i - 1),
            forall|j: int| 0 <= j < i ==> (match (#[trigger] out@[j], dest_at(entries@, j)) {
                (Some(x), Some(d)) => x@ == d,
                (None, None) => true,
                _ => false,
            }),
        decreases entries@.len() - i,
    {
        let e = &entries[i];
        let c: usize = match prev {
            None => 1,
            Some(p) => {
                proof {
                    lemma_counter_at_bound(entries@, i as int - 1);
                }
                if !same_date(&e.timestamp, &p) {
                    1
                } else if !equals(&e.timestamp, &p) {
                    counter + 1
                } else {
                    counter
                }
            },
        };
        proof {
            assert(c as int == counter_at(entries@, i as int));
        }
        let dest: Option<String> = match &e.extension {
            Some(ext) => Some(destination_name(&e.timestamp, c, ext)),
            None => None,
        };
        out.push(dest);
        prev = Some(e.timestamp);
        counter = c;
        i = i + 1;
    }
    out
}

/// Walks the sorted input once and classifies every entry, given for each
/// entry whether its computed destination already existed on disk before
/// the run started. The result is completely determined by the inputs, so
/// re-running on an unchanged input and disk state reproduces it
/// (`lemma_sequence_deterministic`). The sequencer itself performs no
/// renames.
pub fn sequence(entries: &Vec<FileEntry>, disk_exists: &Vec<bool>) -> (r: Vec<Outcome>)
    requires
        disk_exists@.len() == entries@.len(),
    ensures
        r@.len() == entries@.len(),
        forall|i: int| 0 <= i < entries@.len() ==> outcome_matches(
            entries@, disk_exists@, i, #[trigger] r@[i]),
{
    let mut out: Vec<Outcome> = Vec::new();
    let mut claimed: Vec<String> = Vec::new();
    let mut prev: Option<CaptureTimestamp> = None;
    let mut counter: usize = 1;
    let mut i: usize = 0;
    while i < entries.len()
        invariant
            0 <= i <= entries@.len(),
            disk_exists@.len() == entries@.len(),
            out@.len() == i,
            i == 0 ==> prev is None,
            i > 0 ==> prev == Some(entries@[i - 1].timestamp) && counter == counter_at(
                entries@, i - 1),
            name_views(claimed@) == claimed_before(entries@, disk_exists@, i as int),
            forall|j: int| 0 <= j < i ==> outcome_matches(
                entries@, disk_exists@, j, #[trigger] out@[j]),
        decreases entries@.len() - i,
    {
        let e = &entries[i];
        let c: usize = match prev {
            None => 1,
            Some(p) => {
                proof {
                    lemma_counter_at_bound(entries@, i as int - 1);
                }
                if !same_date(&e.timestamp, &p) {
                    1
                } else if !equals(&e.timestamp, &p) {
                    counter + 1
                } else {
                    counter
                }
            },
        };
        proof {
            assert(c as int == counter_at(entries@, i as int));
        }
        let outcome: Outcome = match &e.extension {
            None => Outcome::SkipNoExtension { source: e.path.clone() },
            Some(ext) => {
                let dest = destination_name(&e.timestamp, c, ext);
                if disk_exists[i] || contains_name(&claimed, &dest) {
                    Outcome::SkipDestinationExists { source: e.path.clone(), destination: dest }
                } else {
                    let ghost old_claimed = claimed@;
                    claimed.push(dest.clone());
                    proof {
                        assert(name_views(claimed@) =~= name_views(old_claimed).push(dest@));
                    }
                    Outcome::Rename(RenameDirective { source: e.path.clone(), destination: dest })
                }
            },
        };
        proof {
            assert(name_views(claimed@) =~= claimed_before(entries@, disk_exists@, i as int + 1));
        }
        out.push(outcome);
        prev = Some(e.timestamp);
        counter = c;
        i = i + 1;
    }
    out
}

} // verus!
