//! Run configuration: the command-line options, the traffic patterns they
//! select, and the choice of cores.

use vstd::prelude::*;

verus! {

/// A count of iterations or samples.
pub type Count = u32;

/// Samples per pair when none is given.
pub const DEFAULT_NUM_SAMPLES: Count = 300;

/// Inner repetitions per sample when none is given.
pub const DEFAULT_NUM_ITERATIONS_PER_SAMPLE: Count = 1000;

/// The options of one session.
#[derive(Clone, Debug)]
pub struct CliArgs {
    /// The number of iterations per sample.
    pub num_iterations: Count,
    /// The number of samples.
    pub num_samples: Count,
    /// Whether the mean latencies are also written as CSV.
    pub csv: bool,
    /// The patterns to run, by number, in order.
    pub bench: Vec<usize>,
    /// The cores to use, by id; all of them when empty.
    pub cores: Vec<usize>,
}

/// A coherence-traffic pattern.
#[derive(Clone, Copy, Debug, PartialEq, Eq, Structural)]
pub enum BenchKind {
    /// Compare-and-swap on one shared cache line.
    Cas,
    /// Flag ping-pong, one writer per cache line, over two lines.
    ReadWrite,
    /// One writer and one reader over many cache lines, timed with the shared clock.
    MsgPassing,
}

/// Why a session cannot start.
#[derive(Clone, Copy, Debug, PartialEq, Eq, Structural)]
pub enum ConfigError {
    /// A pattern number that names no pattern.
    UnknownBench(usize),
    /// A requested core id that is not among the available cores.
    CoreNotFound(usize),
    /// Fewer than two cores to measure between.
    TooFewCores(usize),
}

/// The pattern that a number on the command line names.
pub open spec fn bench_of(id: usize) -> Option<BenchKind> {
    if id == 1 {
        Some(BenchKind::Cas)
    } else if id == 2 {
        Some(BenchKind::ReadWrite)
    } else if id == 3 {
        Some(BenchKind::MsgPassing)
    } else {
        None
    }
}

/// Whether running a pattern on `(a, b)` is the same experiment as on `(b, a)`.
pub open spec fn symmetric_pattern(k: BenchKind) -> bool {
    k != BenchKind::MsgPassing
}

impl BenchKind {
    /// The pattern named by `id`.
    pub fn from_id(id: usize) -> (r: Result<BenchKind, ConfigError>)
        ensures
            r matches Ok(k) ==> bench_of(id) == Some(k),
            r is Err ==> bench_of(id) is None && r == Err::<BenchKind, ConfigError>(ConfigError::UnknownBench(id)),
    {
        if id == 1 {
            Ok(BenchKind::Cas)
        } else if id == 2 {
            Ok(BenchKind::ReadWrite)
        } else if id == 3 {
            Ok(BenchKind::MsgPassing)
        } else {
            Err(ConfigError::UnknownBench(id))
        }
    }

    /// Whether the sweep may measure only one of `(i, j)` and `(j, i)`.
    pub fn is_symmetric(&self) -> (r: bool)
        ensures
            r == symmetric_pattern(*self),
    {
        match self {
            BenchKind::MsgPassing => false,
            _ => true,
        }
    }
}

/// The patterns named by `ids`, in order; the first unknown number is an error.
/// Every number is checked before any pattern runs.
pub fn parse_benches(ids: &Vec<usize>) -> (r: Result<Vec<BenchKind>, ConfigError>)
    ensures
        r matches Ok(v) ==> v@.len() == ids@.len() && forall|k: int|
            0 <= k < ids@.len() ==> bench_of(#[trigger] ids@[k]) == Some(v@[k]),
        r is Ok <==> forall|k: int| 0 <= k < ids@.len() ==> bench_of(#[trigger] ids@[k]) is Some,
        r matches Err(e) ==> exists|k: int|
            0 <= k < ids@.len() && bench_of(#[trigger] ids@[k]) is None
            && e == ConfigError::UnknownBench(ids@[k])
            && forall|m: int| 0 <= m < k ==> bench_of(#[trigger] ids@[m]) is Some,
{
    let mut v: Vec<BenchKind> = Vec::new();
    let mut k: usize = 0;
    while k < ids.len()
        invariant
            k <= ids@.len(),
            v@.len() == k,
            forall|m: int| 0 <= m < k ==> bench_of(#[trigger] ids@[m]) == Some(v@[m]),
        decreases ids@.len() - k,
    {
        match BenchKind::from_id(ids[k]) {
            Ok(b) => v.push(b),
            Err(e) => {
                return Err(e);
            },
        }
        k = k + 1;
    }
    Ok(v)
}

/// Position of the first available core whose id is `id`.
pub open spec fn is_first_position(available: Seq<usize>, id: usize, p: int) -> bool {
    &&& 0 <= p < available.len()
    &&& available[p] == id
    &&& forall|m: int| 0 <= m < p ==> available[m] != id
}

/// Whether `id` is among the available cores.
pub open spec fn is_available(available: Seq<usize>, id: usize) -> bool {
    exists|p: int| 0 <= p < available.len() && available[p] == id
}

fn find_core(available: &Vec<usize>, id: usize) -> (r: Option<usize>)
    ensures
        r matches Some(p) ==> is_first_position(available@, id, p as int),
        r is None <==> !is_available(available@, id),
{
    let mut p: usize = 0;
    while p < available.len()
        invariant
            p <= available@.len(),
            forall|m: int| 0 <= m < p ==> available@[m] != id,
        decreases available@.len() - p,
    {
        if available[p] == id {
            return Some(p);
        }
        p = p + 1;
    }
    None
}

/// The cores to measure, as positions in `available`: every available core when
/// nothing is requested, else the first available core of each requested id, in
/// the requested order. The first requested id that is not available is an error.
pub fn select_cores(available: &Vec<usize>, requested: &Vec<usize>) -> (r: Result<Vec<usize>, ConfigError>)
    ensures
        requested@.len() == 0 ==> (r matches Ok(v) && v@.len() == available@.len()
            && forall|k: int| 0 <= k < v@.len() ==> #[trigger] v@[k] == k),
        r is Ok <==> forall|k: int| 0 <= k < requested@.len() ==> is_available(available@, #[trigger] requested@[k]),
        requested@.len() > 0 ==> (r matches Ok(v) ==> v@.len() == requested@.len() && forall|k: int|
            0 <= k < requested@.len() ==> is_first_position(available@, #[trigger] requested@[k], v@[k] as int)),
        r matches Err(e) ==> exists|k: int|
            0 <= k < requested@.len() && !is_available(available@, #[trigger] requested@[k])
            && e == ConfigError::CoreNotFound(requested@[k])
            && forall|m: int| 0 <= m < k ==> is_available(available@, #[trigger] requested@[m]),
{
    let mut v: Vec<usize> = Vec::new();
    if requested.len() == 0 {
        let mut p: usize = 0;
        while p < available.len()
            invariant
                p <= available@.len(),
                v@.len() == p,
                forall|k: int| 0 <= k < p ==> #[trigger] v@[k] == k,
            decreases available@.len() - p,
        {
            v.push(p);
            p = p + 1;
        }
        return Ok(v);
    }
    let mut k: usize = 0;
    while k < requested.len()
        invariant
            k <= requested@.len(),
            v@.len() == k,
            forall|m: int| 0 <= m < k ==> is_first_position(available@, #[trigger] requested@[m], v@[m] as int),
            forall|m: int| 0 <= m < k ==> is_available(available@, #[trigger] requested@[m]),
        decreases requested@.len() - k,
    {
        match find_core(available, requested[k]) {
            Some(p) => v.push(p),
            None => {
                return Err(ConfigError::CoreNotFound(requested[k]));
            },
        }
        k = k + 1;
    }
    Ok(v)
}

/// A sweep needs at least two cores.
pub fn check_core_count(n: usize) -> (r: Result<(), ConfigError>)
    ensures
        r is Ok <==> n >= 2,
        r is Err ==> r == Err::<(), ConfigError>(ConfigError::TooFewCores(n)),
{
    if n >= 2 {
        Ok(())
    } else {
        Err(ConfigError::TooFewCores(n))
    }
}

} // verus!
