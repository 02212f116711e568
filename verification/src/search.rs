//! The open-ended search for a salt whose address ends as wanted: random salts,
//! the test of an address, and the counting and the timing by which workers
//! report how far they are.

use crate::batch::{texts_view, PROGRESS_STEP};
use crate::codec::{all_hex_digits, digit_of, hex_digit, hex_value, lemma_hex_digit_value};
use crate::error::{Create2Error, ErrorView};
use crate::predictor::{
    address_error, lemma_addresses_decide, predict, prediction, ChainFormat,
};
use crate::text::{ascii_chars, ascii_string, bytes_of};
use rand::Rng;
use vstd::prelude::*;

verus! {

/// The number of characters of a random salt.
pub const RANDOM_SALT_LEN: usize = 32;

/// The least time between two reports, in milliseconds.
pub const REPORT_INTERVAL_MS: u64 = 100;

/// Calls `rand::thread_rng().gen::<u32>()`. Nothing is claimed of the number:
/// it depends on chance.
#[verifier::external_body]
pub(crate) fn random_u32() -> u32 {
    rand::thread_rng().gen::<u32>()
}

/// The digits that write the half-bytes of `nibbles`, one digit for each.
pub open spec fn nibble_digits(nibbles: Seq<u8>) -> Seq<u8> {
    Seq::new(nibbles.len(), |i: int| hex_digit(nibbles[i] as int))
}

/// The salt whose characters write the half-bytes of `nibbles`, each below 16,
/// as lower-case hexadecimal digits.
pub fn salt_from_nibbles(nibbles: &[u8]) -> (salt: String)
    requires
        forall|i: int| 0 <= i < nibbles@.len() ==> nibbles@[i] < 16,
    ensures
        salt@ == ascii_chars(nibble_digits(nibbles@)),
        bytes_of(salt@) == nibble_digits(nibbles@),
        all_hex_digits(bytes_of(salt@)),
{
    let mut digits: Vec<u8> = Vec::new();
    let mut i: usize = 0;
    while i < nibbles.len()
        invariant
            i <= nibbles.len(),
            forall|j: int| 0 <= j < nibbles@.len() ==> nibbles@[j] < 16,
            digits@ == nibble_digits(nibbles@.subrange(0, i as int)),
        decreases nibbles.len() - i,
    {
        digits.push(digit_of(nibbles[i]));
        i += 1;
        assert(digits@ =~= nibble_digits(nibbles@.subrange(0, i as int)));
    }
    assert(nibbles@.subrange(0, i as int) =~= nibbles@);
    proof {
        assert forall|j: int| 0 <= j < digits@.len() implies #[trigger] digits@[j] < 128 by {
            lemma_hex_digit_value(nibbles@[j] as int);
        }
        assert forall|j: int| 0 <= j < digits@.len() implies (#[trigger] hex_value(
            digits@[j],
        )) is Some by {
            lemma_hex_digit_value(nibbles@[j] as int);
        }
    }
    ascii_string(digits.as_slice())
}

/// A salt of 32 random hexadecimal digits. Whatever chance gives, the salt is
/// 32 bytes of lower-case hexadecimal text, so that no predictor refuses it.
pub fn random_salt() -> (salt: String)
    ensures
        bytes_of(salt@).len() == 32,
        all_hex_digits(bytes_of(salt@)),
{
    let mut nibbles: Vec<u8> = Vec::new();
    let mut i: usize = 0;
    while i < RANDOM_SALT_LEN
        invariant
            i <= 32,
            nibbles@.len() == i,
            forall|j: int| 0 <= j < i ==> nibbles@[j] < 16,
        decreases 32 - i,
    {
        let nibble: u8 = (random_u32() % 16) as u8;
        nibbles.push(nibble);
        i += 1;
    }
    salt_from_nibbles(nibbles.as_slice())
}

/// Whether `text` ends with `suffix`.
pub open spec fn is_suffix(suffix: Seq<u8>, text: Seq<u8>) -> bool {
    suffix.len() <= text.len() && text.subrange(text.len() - suffix.len(), text.len() as int)
        == suffix
}

/// Whether an address ends with the characters wanted.
pub fn ends_with(address: &str, suffix: &str) -> (found: bool)
    ensures
        found == is_suffix(bytes_of(suffix@), bytes_of(address@)),
{
    let text = address.as_bytes();
    let wanted = suffix.as_bytes();
    if wanted.len() > text.len() {
        return false;
    }
    let offset = text.len() - wanted.len();
    let ghost tail = text@.subrange(offset as int, text@.len() as int);
    let mut i: usize = 0;
    while i < wanted.len()
        invariant
            i <= wanted.len(),
            offset + wanted.len() == text.len(),
            text@ == bytes_of(address@),
            wanted@ == bytes_of(suffix@),
            tail == text@.subrange(offset as int, text@.len() as int),
            forall|j: int| 0 <= j < i ==> tail[j] == wanted@[j],
        decreases wanted.len() - i,
    {
        if text[offset + i] != wanted[i] {
            assert(tail[i as int] != wanted@[i as int]);
            return false;
        }
        i += 1;
    }
    assert(tail =~= wanted@);
    true
}

/// A salt that was found, with its address and the number of salts tried up
/// to and with it.
pub struct Found {
    pub salt: String,
    pub address: String,
    pub attempts: usize,
}

/// What a `Found` is in contracts: the characters of its two texts, and the
/// number of salts tried.
pub struct FoundView {
    pub salt: Seq<char>,
    pub address: Seq<char>,
    pub attempts: nat,
}

impl View for Found {
    type V = FoundView;

    open spec fn view(&self) -> FoundView {
        FoundView { salt: self.salt@, address: self.address@, attempts: self.attempts as nat }
    }
}

/// What the outcome of a search is in contracts.
pub open spec fn search_view(outcome: Result<Option<Found>, Create2Error>) -> Result<
    Option<FoundView>,
    ErrorView,
> {
    match outcome {
        Ok(Some(found)) => Ok(Some(found@)),
        Ok(None) => Ok(None),
        Err(e) => Err(e@),
    }
}

/// Whether a salt is one that the search goes on from: an address is
/// predicted for it, and the address does not end with `suffix`.
pub open spec fn misses(
    format: ChainFormat,
    implementation: Seq<char>,
    deployer: Seq<char>,
    suffix: Seq<u8>,
    salt: Seq<char>,
) -> bool {
    prediction(format, implementation, deployer, salt) matches Ok(address) && !is_suffix(
        suffix,
        bytes_of(address),
    )
}

/// Whether the search goes on from each of the first `count` salts.
pub open spec fn all_miss(
    format: ChainFormat,
    implementation: Seq<char>,
    deployer: Seq<char>,
    suffix: Seq<u8>,
    salts: Seq<Seq<char>>,
    count: int,
) -> bool {
    forall|j: int|
        0 <= j < count ==> misses(format, implementation, deployer, suffix, #[trigger] salts[j])
}

/// Whether the salt at `index` is the one at which the search fails with `e`:
/// the search goes on from every salt before it, and predicting for it gives `e`.
pub open spec fn fails_at(
    format: ChainFormat,
    implementation: Seq<char>,
    deployer: Seq<char>,
    suffix: Seq<u8>,
    salts: Seq<Seq<char>>,
    index: int,
    e: ErrorView,
) -> bool {
    &&& 0 <= index < salts.len()
    &&& prediction(format, implementation, deployer, salts[index]) == Err::<Seq<char>, ErrorView>(e)
    &&& all_miss(format, implementation, deployer, suffix, salts, index)
}

/// What searching the salts in their order gives. What is found is the first
/// salt whose address ends with `suffix`, with that address and its place in
/// the order, counted from 1: the search went on from every salt before it.
/// Nothing is found where the search goes on from every salt. The search fails
/// with the error of the first salt for which nothing is predicted, if the
/// search comes to it.
pub open spec fn is_search_outcome(
    format: ChainFormat,
    implementation: Seq<char>,
    deployer: Seq<char>,
    suffix: Seq<u8>,
    salts: Seq<Seq<char>>,
    outcome: Result<Option<FoundView>, ErrorView>,
) -> bool {
    match outcome {
        Ok(Some(found)) => {
            let index = found.attempts - 1;
            &&& 0 <= index < salts.len()
            &&& found.salt == salts[index]
            &&& prediction(format, implementation, deployer, salts[index]) == Ok::<
                Seq<char>,
                ErrorView,
            >(found.address)
            &&& is_suffix(suffix, bytes_of(found.address))
            &&& all_miss(format, implementation, deployer, suffix, salts, index)
        },
        Ok(None) => all_miss(format, implementation, deployer, suffix, salts, salts.len() as int),
        Err(e) => exists|index: int| #[trigger]
            fails_at(format, implementation, deployer, suffix, salts, index, e),
    }
}

/// Searches the salts given, in their order, for one whose address ends with
/// `suffix`.
pub fn search_salts(
    format: ChainFormat,
    implementation: &str,
    deployer: &str,
    suffix: &str,
    salts: &[String],
) -> (outcome: Result<Option<Found>, Create2Error>)
    ensures
        is_search_outcome(
            format,
            implementation@,
            deployer@,
            bytes_of(suffix@),
            texts_view(salts@),
            search_view(outcome),
        ),
{
    let ghost views = texts_view(salts@);
    let mut i: usize = 0;
    while i < salts.len()
        invariant
            i <= salts.len(),
            views == texts_view(salts@),
            all_miss(format, implementation@, deployer@, bytes_of(suffix@), views, i as int),
        decreases salts.len() - i,
    {
        assert(views[i as int] == salts@[i as int]@);
        let address = match predict(format, implementation, deployer, salts[i].as_str()) {
            Err(e) => {
                assert(fails_at(
                    format,
                    implementation@,
                    deployer@,
                    bytes_of(suffix@),
                    views,
                    i as int,
                    e@,
                ));
                return Err(e);
            },
            Ok(address) => address,
        };
        if ends_with(address.as_str(), suffix) {
            let salt = salts[i].clone();
            return Ok(Some(Found { salt, address, attempts: i + 1 }));
        }
        i += 1;
    }
    Ok(None)
}

/// The most salts that `find_salt` draws before it searches them.
pub const SEARCH_CHUNK: usize = 1024;

/// Whether each of the salts is one that `random_salt` can give: 32 bytes of
/// hexadecimal digits.
pub open spec fn all_drawn(salts: Seq<Seq<char>>) -> bool {
    forall|k: int|
        0 <= k < salts.len() ==> bytes_of(#[trigger] salts[k]).len() == 32 && all_hex_digits(
            bytes_of(salts[k]),
        )
}

/// Draws `count` random salts.
pub fn random_salts(count: usize) -> (salts: Vec<String>)
    ensures
        salts@.len() == count,
        all_drawn(texts_view(salts@)),
{
    let mut salts: Vec<String> = Vec::new();
    let mut i: usize = 0;
    while i < count
        invariant
            i <= count,
            salts@.len() == i,
            all_drawn(texts_view(salts@)),
        decreases count - i,
    {
        let ghost before = salts@;
        let salt = random_salt();
        salts.push(salt);
        assert forall|k: int| 0 <= k < salts@.len() implies bytes_of(
            #[trigger] texts_view(salts@)[k],
        ).len() == 32 && all_hex_digits(bytes_of(texts_view(salts@)[k])) by {
            if k < before.len() {
                assert(texts_view(salts@)[k] == texts_view(before)[k]);
            }
        }
        i += 1;
    }
    salts
}

/// Whether `outcome` is what a search over the salts drawn gives, for a search
/// of `attempts` draws at most: no more salts were drawn than that, all of
/// that many where nothing was found, and the outcome is that of searching the
/// salts drawn in the order in which they were drawn.
pub open spec fn is_find_outcome(
    format: ChainFormat,
    implementation: Seq<char>,
    deployer: Seq<char>,
    suffix: Seq<u8>,
    attempts: usize,
    drawn: Seq<Seq<char>>,
    outcome: Result<Option<FoundView>, ErrorView>,
) -> bool {
    &&& all_drawn(drawn)
    &&& drawn.len() <= attempts
    &&& outcome matches Ok(None) ==> drawn.len() == attempts
    &&& is_search_outcome(format, implementation, deployer, suffix, drawn, outcome)
}

/// The search goes on from the salts of two sequences put together if it goes
/// on from each of the first and from the first `count` of the second.
proof fn lemma_all_miss_joined(
    format: ChainFormat,
    implementation: Seq<char>,
    deployer: Seq<char>,
    suffix: Seq<u8>,
    first: Seq<Seq<char>>,
    second: Seq<Seq<char>>,
    count: int,
)
    requires
        all_miss(format, implementation, deployer, suffix, first, first.len() as int),
        all_miss(format, implementation, deployer, suffix, second, count),
        0 <= count <= second.len(),
    ensures
        all_miss(format, implementation, deployer, suffix, first + second, first.len() + count),
{
    let joined = first + second;
    assert forall|j: int| 0 <= j < first.len() + count implies misses(
        format,
        implementation,
        deployer,
        suffix,
        #[trigger] joined[j],
    ) by {
        if j < first.len() {
            assert(joined[j] == first[j]);
        } else {
            assert(joined[j] == second[j - first.len()]);
        }
    }
}

/// Tries random salts, `attempts` at most, until the address of one ends with
/// `suffix`. The salts are drawn `SEARCH_CHUNK` at a time and searched in the
/// order in which they were drawn. Where the two addresses are not valid, the
/// first salt already fails with their error. Otherwise what is found is the
/// first salt drawn whose address ends as wanted, with that address and the
/// number of salts that it took; `None` says that `attempts` salts were drawn
/// and the address of none of them ends as wanted.
pub fn find_salt(
    format: ChainFormat,
    implementation: &str,
    deployer: &str,
    suffix: &str,
    attempts: usize,
) -> (outcome: Result<Option<Found>, Create2Error>)
    ensures
        attempts == 0 ==> outcome matches Ok(None),
        attempts > 0 ==> (match address_error(format, implementation@, deployer@) {
            Some(e) => outcome matches Err(given) && given@ == e,
            None => outcome is Ok,
        }),
        exists|drawn: Seq<Seq<char>>| #[trigger]
            is_find_outcome(
                format,
                implementation@,
                deployer@,
                bytes_of(suffix@),
                attempts,
                drawn,
                search_view(outcome),
            ),
{
    let ghost mut drawn: Seq<Seq<char>> = Seq::empty();
    let mut tried: usize = 0;
    while tried < attempts
        invariant
            tried <= attempts,
            drawn.len() == tried,
            all_drawn(drawn),
            all_miss(format, implementation@, deployer@, bytes_of(suffix@), drawn, tried as int),
            tried > 0 ==> address_error(format, implementation@, deployer@) is None,
        decreases attempts - tried,
    {
        let size = if attempts - tried < SEARCH_CHUNK {
            attempts - tried
        } else {
            SEARCH_CHUNK
        };
        let salts = random_salts(size);
        let ghost chunk = texts_view(salts@);
        let ghost joined = drawn + chunk;
        let found = search_salts(format, implementation, deployer, suffix, salts.as_slice());
        proof {
            assert forall|k: int| 0 <= k < joined.len() implies bytes_of(#[trigger] joined[k]).len()
                == 32 && all_hex_digits(bytes_of(joined[k])) by {
                if k < drawn.len() {
                    assert(joined[k] == drawn[k]);
                } else {
                    assert(joined[k] == chunk[k - drawn.len()]);
                }
            }
        }
        match found {
            Err(e) => {
                proof {
                    let index = choose|index: int|
                        fails_at(
                            format,
                            implementation@,
                            deployer@,
                            bytes_of(suffix@),
                            chunk,
                            index,
                            e@,
                        );
                    lemma_all_miss_joined(
                        format,
                        implementation@,
                        deployer@,
                        bytes_of(suffix@),
                        drawn,
                        chunk,
                        index,
                    );
                    assert(joined[tried + index] == chunk[index]);
                    assert(fails_at(
                        format,
                        implementation@,
                        deployer@,
                        bytes_of(suffix@),
                        joined,
                        tried + index,
                        e@,
                    ));
                    lemma_addresses_decide(format, implementation@, deployer@, chunk[index]);
                    assert(is_find_outcome(
                        format,
                        implementation@,
                        deployer@,
                        bytes_of(suffix@),
                        attempts,
                        joined,
                        Err::<Option<FoundView>, ErrorView>(e@),
                    ));
                }
                return Err(e);
            },
            Ok(Some(found)) => {
                let overall = Found {
                    salt: found.salt,
                    address: found.address,
                    attempts: tried + found.attempts,
                };
                proof {
                    let index = found.attempts - 1;
                    lemma_all_miss_joined(
                        format,
                        implementation@,
                        deployer@,
                        bytes_of(suffix@),
                        drawn,
                        chunk,
                        index,
                    );
                    assert(joined[tried + index] == chunk[index]);
                    lemma_addresses_decide(format, implementation@, deployer@, chunk[index]);
                    assert(is_find_outcome(
                        format,
                        implementation@,
                        deployer@,
                        bytes_of(suffix@),
                        attempts,
                        joined,
                        Ok::<Option<FoundView>, ErrorView>(Some(overall@)),
                    ));
                }
                return Ok(Some(overall));
            },
            Ok(None) => {
                proof {
                    lemma_all_miss_joined(
                        format,
                        implementation@,
                        deployer@,
                        bytes_of(suffix@),
                        drawn,
                        chunk,
                        size as int,
                    );
                    assert(misses(format, implementation@, deployer@, bytes_of(suffix@), chunk[0]));
                    lemma_addresses_decide(format, implementation@, deployer@, chunk[0]);
                    drawn = joined;
                }
                tried += size;
            },
        }
    }
    proof {
        assert(is_find_outcome(
            format,
            implementation@,
            deployer@,
            bytes_of(suffix@),
            attempts,
            drawn,
            Ok::<Option<FoundView>, ErrorView>(None),
        ));
    }
    Ok(None)
}

/// The indices of the addresses that end with `suffix`, in rising order.
pub fn matching(addresses: &[String], suffix: &str) -> (indices: Vec<usize>)
    ensures
        forall|k: int|
            0 <= k < indices@.len() ==> (#[trigger] indices@[k]) < addresses@.len() && is_suffix(
                bytes_of(suffix@),
                bytes_of(addresses@[indices@[k] as int]@),
            ),
        forall|k: int, l: int| 0 <= k < l < indices@.len() ==> indices@[k] < indices@[l],
        forall|i: int|
            0 <= i < addresses@.len() && is_suffix(
                bytes_of(suffix@),
                bytes_of((#[trigger] addresses@[i])@),
            ) ==> indices@.contains(i as usize),
{
    let mut indices: Vec<usize> = Vec::new();
    let mut i: usize = 0;
    while i < addresses.len()
        invariant
            i <= addresses.len(),
            forall|k: int|
                0 <= k < indices@.len() ==> (#[trigger] indices@[k]) < i && is_suffix(
                    bytes_of(suffix@),
                    bytes_of(addresses@[indices@[k] as int]@),
                ),
            forall|k: int, l: int| 0 <= k < l < indices@.len() ==> indices@[k] < indices@[l],
            forall|j: int|
                0 <= j < i && is_suffix(bytes_of(suffix@), bytes_of((#[trigger] addresses@[j])@))
                    ==> indices@.contains(j as usize),
        decreases addresses.len() - i,
    {
        if ends_with(addresses[i].as_str(), suffix) {
            let ghost before = indices@;
            indices.push(i);
            assert(indices@[before.len() as int] == i);
            assert forall|j: int|
                0 <= j < i && is_suffix(
                    bytes_of(suffix@),
                    bytes_of((#[trigger] addresses@[j])@),
                ) implies indices@.contains(j as usize) by {
                let k = choose|k: int| 0 <= k < before.len() && before[k] == j as usize;
                assert(indices@[k] == j as usize);
            }
        }
        i += 1;
    }
    indices
}

/// The count that a worker keeps for itself between two additions to the
/// shared count: always below `PROGRESS_STEP`.
pub struct Worker {
    local_count: usize,
}

impl Worker {
    /// The number of predictions counted and not yet handed on.
    pub closed spec fn pending(&self) -> nat {
        self.local_count as nat
    }

    /// Whether the count is one that a worker can hold.
    pub closed spec fn wf(&self) -> bool {
        self.local_count < PROGRESS_STEP
    }

    /// A worker that has counted nothing.
    pub fn new() -> (worker: Self)
        ensures
            worker.wf(),
            worker.pending() == 0,
    {
        Worker { local_count: 0 }
    }

    /// Counts one prediction. When that makes `PROGRESS_STEP` of them, they
    /// are handed out to be added to the shared count, and the worker starts
    /// again at nothing.
    pub fn record(&mut self) -> (flushed: Option<usize>)
        requires
            old(self).wf(),
        ensures
            final(self).wf(),
            old(self).pending() + 1 < PROGRESS_STEP ==> flushed is None && final(self).pending()
                == old(self).pending() + 1,
            old(self).pending() + 1 >= PROGRESS_STEP ==> flushed == Some(PROGRESS_STEP)
                && final(self).pending() == 0,
    {
        self.local_count = self.local_count + 1;
        if self.local_count >= PROGRESS_STEP {
            let count = self.local_count;
            self.local_count = 0;
            Some(count)
        } else {
            None
        }
    }

    /// Counts one prediction whose address ends as wanted, and hands out all
    /// that is counted, that one with it, to be added to the shared count at
    /// once. The worker starts again at nothing.
    pub fn record_match(&mut self) -> (count: usize)
        requires
            old(self).wf(),
        ensures
            final(self).wf(),
            count == old(self).pending() + 1,
            final(self).pending() == 0,
    {
        let count = self.local_count + 1;
        self.local_count = 0;
        count
    }

    /// Hands out what has been counted and not yet handed on, as is done when
    /// a worker ends.
    pub fn take(&mut self) -> (count: usize)
        requires
            old(self).wf(),
        ensures
            final(self).wf(),
            count == old(self).pending(),
            final(self).pending() == 0,
    {
        let count = self.local_count;
        self.local_count = 0;
        count
    }
}

/// What a worker does after it has added to the shared count.
#[derive(Clone, Copy, Debug, PartialEq, Eq, Structural)]
pub enum Progress {
    /// The target is reached: stop.
    Finished,
    /// Go on, and report if the time allows it.
    Report,
    /// Go on without a report.
    Continue,
}

/// Decides what follows an addition to the shared count, `total` being the
/// count after it. With a target, a total that has reached it ends the
/// search. Otherwise a total that is a multiple of `interval` asks for a
/// report.
pub fn after_flush(total: usize, target: Option<usize>, interval: usize) -> (next: Progress)
    requires
        interval > 0,
    ensures
        next == (if target matches Some(t) && total >= t {
            Progress::Finished
        } else if total % interval == 0 {
            Progress::Report
        } else {
            Progress::Continue
        }),
{
    match target {
        Some(t) => {
            if total >= t {
                return Progress::Finished;
            }
        },
        None => {},
    }
    if total % interval == 0 {
        Progress::Report
    } else {
        Progress::Continue
    }
}

/// The time of the last report, in milliseconds since the search began. It
/// lets at most one report through in any `REPORT_INTERVAL_MS`.
pub struct ReportGate {
    last_report_ms: u64,
}

impl ReportGate {
    /// The time of the last report.
    pub closed spec fn last(&self) -> u64 {
        self.last_report_ms
    }

    /// A gate whose last report was at `now_ms`.
    pub fn new(now_ms: u64) -> (gate: Self)
        ensures
            gate.last() == now_ms,
    {
        ReportGate { last_report_ms: now_ms }
    }

    /// Whether a report may be made at `now_ms`: it may when the last one
    /// lies at least `REPORT_INTERVAL_MS` back, and `now_ms` is then the time
    /// of the last report. A time before the last report counts as the time
    /// of the last report.
    pub fn should_report(&mut self, now_ms: u64) -> (report: bool)
        ensures
            report == (now_ms - old(self).last() >= REPORT_INTERVAL_MS),
            final(self).last() == if report {
                now_ms
            } else {
                old(self).last()
            },
    {
        if now_ms >= self.last_report_ms && now_ms - self.last_report_ms >= REPORT_INTERVAL_MS {
            self.last_report_ms = now_ms;
            true
        } else {
            false
        }
    }
}

/// The size of the next batch of a run of `total` predictions of which
/// `processed` are done: a full batch, or what is left of the run.
pub fn next_batch_size(batch_size: usize, total: usize, processed: usize) -> (size: usize)
    requires
        processed <= total,
    ensures
        size == if total - processed < batch_size {
            total - processed
        } else {
            batch_size as int
        },
{
    if total - processed < batch_size {
        total - processed
    } else {
        batch_size
    }
}

} // verus!
