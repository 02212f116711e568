//! Prediction over batches of salts: one salt after the other, or handed out to
//! the worker pool of `rayon`, with the results in the order of the salts.

use crate::error::{text_result, Create2Error, ErrorView};
use crate::predictor::{
    evm_address, invalid_address_text, is_valid_address, predict, prediction, validate_address,
    ChainFormat,
};
use crate::text::{
    all_ascii, ascii_chars, ascii_string, bytes_of, decimal, decimal_bytes,
    lemma_ascii_chars_bytes, lemma_decimal_digits,
};
use rayon::iter::{IntoParallelRefIterator, ParallelIterator};
use vstd::prelude::*;

verus! {

/// After how many predictions a batch reports its progress, and a worker adds
/// its own count to the shared one.
pub const PROGRESS_STEP: usize = 1000;

/// The bytes of the salt that stands for the index `index`: `Salt-` and the
/// index in decimal digits.
pub open spec fn indexed_salt_bytes(index: nat) -> Seq<u8> {
    seq![0x53u8, 0x61u8, 0x6cu8, 0x74u8, 0x2du8] + decimal(index)
}

/// The salt that stands for the index `index`.
pub open spec fn indexed_salt_text(index: nat) -> Seq<char> {
    ascii_chars(indexed_salt_bytes(index))
}

/// The salt of an index is ASCII text of at most 25 bytes.
pub proof fn lemma_indexed_salt(index: nat)
    requires
        index < 0x1_0000_0000_0000_0000,
    ensures
        all_ascii(indexed_salt_bytes(index)),
        indexed_salt_bytes(index).len() <= 25,
        bytes_of(indexed_salt_text(index)) == indexed_salt_bytes(index),
{
    lemma_decimal_digits(index);
    lemma_ascii_chars_bytes(indexed_salt_bytes(index));
}

/// The salt that stands for the index `index`.
pub fn indexed_salt(index: usize) -> (salt: String)
    ensures
        salt@ == indexed_salt_text(index as nat),
        bytes_of(salt@) == indexed_salt_bytes(index as nat),
{
    let mut bytes: Vec<u8> = Vec::new();
    bytes.push(0x53);
    bytes.push(0x61);
    bytes.push(0x6c);
    bytes.push(0x74);
    bytes.push(0x2d);
    let mut digits = decimal_bytes(index);
    bytes.append(&mut digits);
    assert(bytes@ =~= indexed_salt_bytes(index as nat));
    proof {
        lemma_indexed_salt(index as nat);
    }
    ascii_string(bytes.as_slice())
}

/// The characters of each text of `texts`.
pub open spec fn texts_view(texts: Seq<String>) -> Seq<Seq<char>> {
    Seq::new(texts.len(), |i: int| texts[i]@)
}

/// Hands the salts out to the worker pool: calls `par_iter`, `map` and `collect`
/// of `rayon`, each worker calling `predict` on one salt at a time. Believed,
/// not proved: the vector that `collect` builds holds what `predict` returned
/// for each salt, at the salt's index.
#[verifier::external_body]
fn par_predict(format: ChainFormat, implementation: &str, deployer: &str, salts: &[String]) -> (results:
    Vec<Result<String, Create2Error>>)
    ensures
        results@.len() == salts@.len(),
        forall|i: int|
            0 <= i < salts@.len() ==> text_result(#[trigger] results@[i]) == prediction(
                format,
                implementation@,
                deployer@,
                salts@[i]@,
            ),
{
    salts.par_iter().map(|salt| predict(format, implementation, deployer, salt.as_str())).collect()
}

/// Whether `index` is where the first error of `results` stands.
pub open spec fn is_first_error(results: Seq<Result<Seq<char>, ErrorView>>, index: int) -> bool {
    &&& 0 <= index < results.len()
    &&& results[index] is Err
    &&& forall|j: int| 0 <= j < index ==> (#[trigger] results[j]) is Ok
}

/// What a batch gives, from what each of its salts gave: every address, in the
/// order of the salts, or the first error in that order and no address.
pub open spec fn is_batch_outcome(
    results: Seq<Result<Seq<char>, ErrorView>>,
    outcome: Result<Seq<Seq<char>>, ErrorView>,
) -> bool {
    match outcome {
        Ok(addresses) => {
            &&& addresses.len() == results.len()
            &&& forall|i: int|
                0 <= i < results.len() ==> (#[trigger] results[i]) == Ok::<Seq<char>, ErrorView>(
                    addresses[i],
                )
        },
        Err(e) => exists|index: int|
            #[trigger] is_first_error(results, index) && results[index] == Err::<
                Seq<char>,
                ErrorView,
            >(e),
    }
}

/// What a vector of addresses or an error is in contracts.
pub open spec fn batch_view(outcome: Result<Vec<String>, Create2Error>) -> Result<
    Seq<Seq<char>>,
    ErrorView,
> {
    match outcome {
        Ok(addresses) => Ok(texts_view(addresses@)),
        Err(e) => Err(e@),
    }
}

/// What each of the results is in contracts.
pub open spec fn results_view(results: Seq<Result<String, Create2Error>>) -> Seq<
    Result<Seq<char>, ErrorView>,
> {
    Seq::new(results.len(), |i: int| text_result(results[i]))
}

/// The items of `items` in the opposite order.
pub fn reversed<T>(items: Vec<T>) -> (turned: Vec<T>)
    ensures
        turned@.len() == items@.len(),
        forall|k: int| 0 <= k < items@.len() ==> #[trigger] turned@[k] == items@[items@.len() - 1 - k],
{
    let ghost given = items@;
    let mut rest = items;
    let mut turned: Vec<T> = Vec::new();
    while rest.len() > 0
        invariant
            rest@.len() + turned@.len() == given.len(),
            rest@ == given.subrange(0, rest@.len() as int),
            forall|k: int|
                0 <= k < turned@.len() ==> #[trigger] turned@[k] == given[given.len() - 1 - k],
        decreases rest.len(),
    {
        let last = rest.pop();
        match last {
            Some(item) => {
                turned.push(item);
            },
            None => {},
        }
        assert(rest@ =~= given.subrange(0, rest@.len() as int));
    }
    turned
}

/// Gathers the results of a batch: all the addresses in their order, or the
/// first error.
pub fn gather(results: Vec<Result<String, Create2Error>>) -> (outcome: Result<
    Vec<String>,
    Create2Error,
>)
    ensures
        is_batch_outcome(results_view(results@), batch_view(outcome)),
{
    let ghost given = results_view(results@);
    let mut addresses: Vec<String> = Vec::new();
    let mut rest = reversed(results);
    let ghost mut taken: int = 0;
    while rest.len() > 0
        invariant
            given == results_view(results@),
            0 <= taken <= given.len(),
            rest@.len() + taken == given.len(),
            forall|k: int|
                0 <= k < rest@.len() ==> text_result(#[trigger] rest@[k]) == given[given.len() - 1
                    - k],
            addresses@.len() == taken,
            forall|i: int|
                0 <= i < taken ==> (#[trigger] given[i]) == Ok::<Seq<char>, ErrorView>(
                    addresses@[i]@,
                ),
        decreases rest.len(),
    {
        let ghost last = rest@[rest@.len() - 1];
        assert(text_result(last) == given[taken]);
        let next = rest.pop();
        match next {
            Some(Ok(address)) => {
                addresses.push(address);
                proof {
                    taken = taken + 1;
                }
            },
            Some(Err(e)) => {
                assert(given[taken] == Err::<Seq<char>, ErrorView>(e@));
                assert(is_first_error(given, taken));
                return Err(e);
            },
            None => {},
        }
    }
    assert(texts_view(addresses@).len() == given.len());
    Ok(addresses)
}

/// What each salt of a batch gives, in the order of the salts.
pub open spec fn salt_predictions(
    format: ChainFormat,
    implementation: Seq<char>,
    deployer: Seq<char>,
    salts: Seq<String>,
) -> Seq<Result<Seq<char>, ErrorView>> {
    Seq::new(salts.len(), |i: int| prediction(format, implementation, deployer, salts[i]@))
}

/// Predicts the address for each salt, one after the other. The addresses come
/// in the order of the salts; the first salt that fails ends the batch with its
/// error.
pub fn predict_salts(format: ChainFormat, implementation: &str, deployer: &str, salts: &[String]) -> (outcome:
    Result<Vec<String>, Create2Error>)
    ensures
        is_batch_outcome(
            salt_predictions(format, implementation@, deployer@, salts@),
            batch_view(outcome),
        ),
{
    let ghost each = salt_predictions(format, implementation@, deployer@, salts@);
    let mut addresses: Vec<String> = Vec::new();
    let mut i: usize = 0;
    while i < salts.len()
        invariant
            i <= salts.len(),
            each == salt_predictions(format, implementation@, deployer@, salts@),
            addresses@.len() == i,
            forall|j: int|
                0 <= j < i ==> (#[trigger] each[j]) == Ok::<Seq<char>, ErrorView>(addresses@[j]@),
        decreases salts.len() - i,
    {
        match predict(format, implementation, deployer, salts[i].as_str()) {
            Ok(address) => {
                addresses.push(address);
            },
            Err(e) => {
                assert(each[i as int] == Err::<Seq<char>, ErrorView>(e@));
                assert(is_first_error(each, i as int));
                return Err(e);
            },
        }
        i += 1;
    }
    assert(texts_view(addresses@).len() == each.len());
    Ok(addresses)
}

/// Predicts the address for each salt, the salts handed out to the worker pool.
/// The outcome is that of `predict_salts`: the addresses in the order of the
/// salts, or the error of the first salt that fails.
pub fn predict_salts_parallel(
    format: ChainFormat,
    implementation: &str,
    deployer: &str,
    salts: &[String],
) -> (outcome: Result<Vec<String>, Create2Error>)
    ensures
        is_batch_outcome(
            salt_predictions(format, implementation@, deployer@, salts@),
            batch_view(outcome),
        ),
{
    let results = par_predict(format, implementation, deployer, salts);
    assert(results_view(results@) =~= salt_predictions(
        format,
        implementation@,
        deployer@,
        salts@,
    ));
    gather(results)
}

/// In a batch that succeeds there is one address for each salt, and the address
/// at an index is the one predicted for the salt at that index.
pub proof fn lemma_batch_order(
    format: ChainFormat,
    implementation: Seq<char>,
    deployer: Seq<char>,
    salts: Seq<String>,
    addresses: Seq<Seq<char>>,
    i: int,
)
    requires
        is_batch_outcome(
            salt_predictions(format, implementation, deployer, salts),
            Ok::<Seq<Seq<char>>, ErrorView>(addresses),
        ),
        0 <= i < salts.len(),
    ensures
        addresses.len() == salts.len(),
        prediction(format, implementation, deployer, salts[i]@) == Ok::<Seq<char>, ErrorView>(
            addresses[i],
        ),
{
    let each = salt_predictions(format, implementation, deployer, salts);
    assert(each[i] == Ok::<Seq<char>, ErrorView>(addresses[i]));
}

/// A batch may be cut in two at any place: where the two parts succeed, their
/// addresses put together are the addresses of the whole batch.
pub proof fn lemma_batches_join(
    format: ChainFormat,
    implementation: Seq<char>,
    deployer: Seq<char>,
    first: Seq<String>,
    second: Seq<String>,
    first_addresses: Seq<Seq<char>>,
    second_addresses: Seq<Seq<char>>,
)
    requires
        is_batch_outcome(
            salt_predictions(format, implementation, deployer, first),
            Ok::<Seq<Seq<char>>, ErrorView>(first_addresses),
        ),
        is_batch_outcome(
            salt_predictions(format, implementation, deployer, second),
            Ok::<Seq<Seq<char>>, ErrorView>(second_addresses),
        ),
    ensures
        is_batch_outcome(
            salt_predictions(format, implementation, deployer, first + second),
            Ok::<Seq<Seq<char>>, ErrorView>(first_addresses + second_addresses),
        ),
{
    let whole = salt_predictions(format, implementation, deployer, first + second);
    let one = salt_predictions(format, implementation, deployer, first);
    let two = salt_predictions(format, implementation, deployer, second);
    let joined = first_addresses + second_addresses;
    assert forall|i: int| 0 <= i < whole.len() implies (#[trigger] whole[i]) == Ok::<
        Seq<char>,
        ErrorView,
    >(joined[i]) by {
        if i < first.len() {
            assert((first + second)[i] == first[i]);
            assert(one[i] == Ok::<Seq<char>, ErrorView>(first_addresses[i]));
        } else {
            assert((first + second)[i] == second[i - first.len()]);
            assert(two[i - first.len()] == Ok::<Seq<char>, ErrorView>(
                second_addresses[i - first.len()],
            ));
        }
    }
}

/// Calls `rayon::current_num_threads`: the number of threads of the worker
/// pool. The number depends on the machine and on how the pool was built.
/// Believed, not proved: it is at least 1, since the crate builds no pool
/// without a thread.
#[verifier::external_body]
fn worker_count() -> (count: usize)
    ensures
        count >= 1,
{
    rayon::current_num_threads()
}

/// The address predicted for the salt of each index from `start` on, `count`
/// of them.
pub open spec fn indexed_addresses(
    implementation: Seq<u8>,
    deployer: Seq<u8>,
    start: nat,
    count: nat,
) -> Seq<Seq<char>> {
    Seq::new(
        count,
        |i: int| evm_address(implementation, deployer, indexed_salt_bytes((start + i) as nat)),
    )
}

/// What a batch over a range of indices gives: the two addresses are checked
/// once, before any salt; with valid addresses no salt of an index can fail.
pub open spec fn range_prediction(
    implementation: Seq<u8>,
    deployer: Seq<u8>,
    start: nat,
    count: nat,
) -> Result<Seq<Seq<char>>, ErrorView> {
    if !is_valid_address(implementation) || !is_valid_address(deployer) {
        Err(ErrorView::InvalidAddress(invalid_address_text()))
    } else {
        Ok(indexed_addresses(implementation, deployer, start, count))
    }
}

/// The salts of the indices from `start` on, `count` of them.
fn indexed_salts(start: usize, count: usize) -> (salts: Vec<String>)
    requires
        start + count <= usize::MAX,
    ensures
        salts@.len() == count,
        forall|i: int|
            0 <= i < count ==> bytes_of((#[trigger] salts@[i])@) == indexed_salt_bytes(
                (start + i) as nat,
            ),
{
    let mut salts: Vec<String> = Vec::new();
    let mut i: usize = 0;
    while i < count
        invariant
            i <= count,
            start + count <= usize::MAX,
            salts@.len() == i,
            forall|j: int|
                0 <= j < i ==> bytes_of((#[trigger] salts@[j])@) == indexed_salt_bytes(
                    (start + j) as nat,
                ),
        decreases count - i,
    {
        salts.push(indexed_salt(start + i));
        i += 1;
    }
    salts
}

/// The addresses of the indices from `start` on, `count` of them, for two
/// addresses that have been checked; the salts are handed out to the worker pool.
fn predict_indexed(implementation: &str, deployer: &str, start: usize, count: usize) -> (addresses:
    Vec<String>)
    requires
        start + count <= usize::MAX,
        is_valid_address(bytes_of(implementation@)),
        is_valid_address(bytes_of(deployer@)),
    ensures
        texts_view(addresses@) == indexed_addresses(
            bytes_of(implementation@),
            bytes_of(deployer@),
            start as nat,
            count as nat,
        ),
{
    let salts = indexed_salts(start, count);
    let outcome = predict_salts_parallel(
        ChainFormat::Evm,
        implementation,
        deployer,
        salts.as_slice(),
    );
    let ghost each = salt_predictions(ChainFormat::Evm, implementation@, deployer@, salts@);
    assert forall|i: int| 0 <= i < count implies (#[trigger] each[i]) == Ok::<
        Seq<char>,
        ErrorView,
    >(
        evm_address(
            bytes_of(implementation@),
            bytes_of(deployer@),
            indexed_salt_bytes((start + i) as nat),
        ),
    ) by {
        lemma_indexed_salt((start + i) as nat);
        assert(bytes_of(salts@[i]@) == indexed_salt_bytes((start + i) as nat));
    }
    match outcome {
        Ok(addresses) => {
            assert(texts_view(addresses@) =~= indexed_addresses(
                bytes_of(implementation@),
                bytes_of(deployer@),
                start as nat,
                count as nat,
            )) by {
                assert forall|i: int| 0 <= i < count implies texts_view(addresses@)[i]
                    == indexed_addresses(
                    bytes_of(implementation@),
                    bytes_of(deployer@),
                    start as nat,
                    count as nat,
                )[i] by {
                    assert(each[i] == Ok::<Seq<char>, ErrorView>(addresses@[i]@));
                }
            }
            addresses
        },
        Err(_) => {
            proof {
                let index = choose|index: int| is_first_error(each, index);
                assert(each[index] is Ok);
            }
            Vec::new()
        },
    }
}

/// The addresses of a chunk, put behind those of the indices before it, are
/// the addresses of the range up to the end of the chunk.
proof fn lemma_chunk_extends(
    implementation: Seq<u8>,
    deployer: Seq<u8>,
    start: nat,
    count: nat,
    done: nat,
    step: nat,
    before: Seq<String>,
    added: Seq<String>,
)
    requires
        done + step <= count,
        texts_view(before) == indexed_addresses(implementation, deployer, start, count).subrange(
            0,
            done as int,
        ),
        texts_view(added) == indexed_addresses(implementation, deployer, start + done, step),
    ensures
        texts_view(before + added) == indexed_addresses(
            implementation,
            deployer,
            start,
            count,
        ).subrange(0, (done + step) as int),
{
    let wanted = indexed_addresses(implementation, deployer, start, count);
    let joined = texts_view(before + added);
    assert(texts_view(before).len() == done);
    assert(texts_view(added).len() == step);
    assert forall|i: int| 0 <= i < done + step implies joined[i] == wanted[i] by {
        if i < done {
            assert(texts_view(before)[i] == wanted.subrange(0, done as int)[i]);
        } else {
            assert(texts_view(added)[i - done] == indexed_addresses(
                implementation,
                deployer,
                start + done,
                step,
            )[i - done]);
        }
    }
    assert(joined =~= wanted.subrange(0, (done + step) as int));
}

/// The engine that predicts over a range of indices on the worker pool.
pub struct ParallelPredictor {
    thread_count: usize,
}

impl ParallelPredictor {
    /// An engine on the worker pool as it is now. How many threads the pool
    /// has depends on the machine; there is at least one.
    pub fn new() -> (engine: Self)
        ensures
            engine.threads() >= 1,
    {
        ParallelPredictor { thread_count: worker_count() }
    }

    /// The number of threads that the pool had when the engine was made.
    pub closed spec fn threads(&self) -> usize {
        self.thread_count
    }

    /// The number of threads that the pool had when the engine was made.
    pub fn thread_count(&self) -> (count: usize)
        ensures
            count == self.threads(),
    {
        self.thread_count
    }

    /// Predicts the addresses for the salts of the indices `start_index` up
    /// to, not including, `start_index + count`. Both addresses are checked
    /// before any salt is looked at. The callback, if there is one, is called
    /// with the number of salts done so far each time that number is a
    /// multiple of `PROGRESS_STEP`.
    pub fn predict_batch<F: Fn(usize)>(
        &self,
        implementation: &str,
        deployer: &str,
        start_index: usize,
        count: usize,
        progress_callback: Option<F>,
    ) -> (outcome: Result<Vec<String>, Create2Error>)
        requires
            start_index + count <= usize::MAX,
            progress_callback matches Some(callback) ==> forall|done: usize|
                callback.requires((done,)),
        ensures
            batch_view(outcome) == range_prediction(
                bytes_of(implementation@),
                bytes_of(deployer@),
                start_index as nat,
                count as nat,
            ),
    {
        match validate_address(implementation) {
            Err(e) => {
                return Err(e);
            },
            Ok(_) => {},
        }
        match validate_address(deployer) {
            Err(e) => {
                return Err(e);
            },
            Ok(_) => {},
        }
        let ghost wanted = indexed_addresses(
            bytes_of(implementation@),
            bytes_of(deployer@),
            start_index as nat,
            count as nat,
        );
        let mut addresses: Vec<String> = Vec::new();
        let mut done: usize = 0;
        while done < count
            invariant
                done <= count,
                start_index + count <= usize::MAX,
                is_valid_address(bytes_of(implementation@)),
                is_valid_address(bytes_of(deployer@)),
                progress_callback matches Some(callback) ==> forall|done: usize|
                    callback.requires((done,)),
                wanted == indexed_addresses(
                    bytes_of(implementation@),
                    bytes_of(deployer@),
                    start_index as nat,
                    count as nat,
                ),
                texts_view(addresses@) == wanted.subrange(0, done as int),
            decreases count - done,
        {
            let step = if count - done < PROGRESS_STEP {
                count - done
            } else {
                PROGRESS_STEP
            };
            let mut chunk = predict_indexed(implementation, deployer, start_index + done, step);
            let ghost before = addresses@;
            let ghost added = chunk@;
            addresses.append(&mut chunk);
            proof {
                lemma_chunk_extends(
                    bytes_of(implementation@),
                    bytes_of(deployer@),
                    start_index as nat,
                    count as nat,
                    done as nat,
                    step as nat,
                    before,
                    added,
                );
            }
            done += step;
            if done % PROGRESS_STEP == 0 {
                match &progress_callback {
                    Some(callback) => {
                        callback(done);
                    },
                    None => {},
                }
            }
        }
        assert(wanted.subrange(0, count as int) =~= wanted);
        Ok(addresses)
    }

    /// Predicts the addresses for the salts of the indices below `total_count`,
    /// `chunk_size` of them at a time, without a callback. Both addresses are
    /// checked before any chunk, also where there is no index to predict for.
    pub fn predict_batch_chunked(
        &self,
        implementation: &str,
        deployer: &str,
        total_count: usize,
        chunk_size: usize,
    ) -> (outcome: Result<Vec<String>, Create2Error>)
        requires
            chunk_size > 0,
        ensures
            batch_view(outcome) == range_prediction(
                bytes_of(implementation@),
                bytes_of(deployer@),
                0,
                total_count as nat,
            ),
    {
        match validate_address(implementation) {
            Err(e) => {
                return Err(e);
            },
            Ok(_) => {},
        }
        match validate_address(deployer) {
            Err(e) => {
                return Err(e);
            },
            Ok(_) => {},
        }
        let ghost wanted = indexed_addresses(
            bytes_of(implementation@),
            bytes_of(deployer@),
            0,
            total_count as nat,
        );
        let mut all_results: Vec<String> = Vec::new();
        let mut chunk_start: usize = 0;
        assert(texts_view(all_results@) =~= wanted.subrange(0, 0));
        while chunk_start < total_count
            invariant
                chunk_start <= total_count,
                chunk_size > 0,
                is_valid_address(bytes_of(implementation@)),
                is_valid_address(bytes_of(deployer@)),
                wanted == indexed_addresses(
                    bytes_of(implementation@),
                    bytes_of(deployer@),
                    0,
                    total_count as nat,
                ),
                texts_view(all_results@) == wanted.subrange(0, chunk_start as int),
            decreases total_count - chunk_start,
        {
            let size = if total_count - chunk_start < chunk_size {
                total_count - chunk_start
            } else {
                chunk_size
            };
            let mut chunk_results = predict_indexed(implementation, deployer, chunk_start, size);
            let ghost before = all_results@;
            let ghost added = chunk_results@;
            all_results.append(&mut chunk_results);
            proof {
                lemma_chunk_extends(
                    bytes_of(implementation@),
                    bytes_of(deployer@),
                    0,
                    total_count as nat,
                    chunk_start as nat,
                    size as nat,
                    before,
                    added,
                );
            }
            chunk_start += size;
        }
        assert(wanted.subrange(0, total_count as int) =~= wanted);
        Ok(all_results)
    }
}

} // verus!
