//! Allocating a collision-free name from a prefix: random three-digit
//! suffixes, each tried with an exclusive create, with a bounded number of
//! attempts.

use vstd::prelude::*;
use rand::Rng;
use crate::names::{candidate_name, candidate_spec};
use crate::response::ErrorKind;

verus! {

/// How many candidate names are tried before giving up.
pub const MAX_ATTEMPTS: usize = 100;

/// Suffixes are drawn from `0..SUFFIX_SPACE`.
pub const SUFFIX_SPACE: u32 = 1000;

/// One draw for each attempt, each a valid suffix.
pub open spec fn valid_draws(draws: Seq<u32>) -> bool {
    &&& draws.len() == MAX_ATTEMPTS
    &&& forall|i: int| 0 <= i < draws.len() ==> draws[i] < SUFFIX_SPACE
}

/// Relies on `rand::thread_rng` and `Rng::gen_range(low, high)` of rand 0.7,
/// which returns a value in `[low, high)` and panics only when `low >= high`.
#[verifier::external_body]
fn random_below(high: u32) -> (r: u32)
    requires
        0 < high,
    ensures
        r < high,
{
    rand::thread_rng().gen_range(0u32, high)
}

/// Draws the suffixes for one allocation, uniformly and independently.
pub fn draw_suffixes() -> (r: Vec<u32>)
    ensures
        valid_draws(r@),
{
    let mut r: Vec<u32> = Vec::new();
    let mut i: usize = 0;
    while i < MAX_ATTEMPTS
        invariant
            i <= MAX_ATTEMPTS,
            r@.len() == i,
            forall|j: int| 0 <= j < i ==> r@[j] < SUFFIX_SPACE,
        decreases MAX_ATTEMPTS - i,
    {
        r.push(random_below(SUFFIX_SPACE));
        i = i + 1;
    }
    r
}

/// The index of the first attempt, from `from` on, whose candidate name is not
/// in `taken`; `None` if every remaining candidate is taken.
pub open spec fn first_free(taken: Set<Seq<char>>, prefix: Seq<char>, draws: Seq<u32>, from: int) -> Option<int>
    decreases draws.len() - from,
{
    if from < 0 || from >= draws.len() {
        None
    } else if !taken.contains(candidate_spec(prefix, draws[from] as int)) {
        Some(from)
    } else {
        first_free(taken, prefix, draws, from + 1)
    }
}

/// `first_free` picks the earliest candidate from `from` on that is not
/// taken, and finds none exactly when every remaining candidate is taken.
pub proof fn lemma_first_free(taken: Set<Seq<char>>, prefix: Seq<char>, draws: Seq<u32>, from: int)
    requires
        0 <= from <= draws.len(),
    ensures
        first_free(taken, prefix, draws, from) is Some ==> {
            let i = first_free(taken, prefix, draws, from)->Some_0;
            &&& from <= i < draws.len()
            &&& !taken.contains(candidate_spec(prefix, draws[i] as int))
            &&& forall|j: int|
                from <= j < i ==> taken.contains(#[trigger] candidate_spec(prefix, draws[j] as int))
        },
        first_free(taken, prefix, draws, from) is None <==> forall|j: int|
            from <= j < draws.len() ==> taken.contains(
                #[trigger] candidate_spec(prefix, draws[j] as int),
            ),
    decreases draws.len() - from,
{
    if from < draws.len() {
        lemma_first_free(taken, prefix, draws, from + 1);
        if !taken.contains(candidate_spec(prefix, draws[from] as int)) {
            let j = from;
            assert(from <= j < draws.len() && !taken.contains(candidate_spec(prefix, draws[j] as int)));
        }
    }
}

/// What an exclusive create reported.
#[derive(Debug, Clone, Copy, PartialEq, Eq, Structural)]
pub enum CreateResult {
    /// The blob was absent and has been created with the payload.
    Created,
    /// A blob of that name exists; nothing was changed.
    AlreadyExists,
    /// The store failed.
    Failed,
}

/// What the allocator asks for next.
#[derive(Debug, Clone, PartialEq, Eq)]
pub enum Step {
    /// Try an exclusive create under this name.
    Try(String),
    /// The payload was committed under this name.
    Committed(String),
    /// The allocation ended without a name.
    Failed(ErrorKind),
}

/// The state of one allocation: the prefix, the suffixes drawn for it, and
/// the index of the attempt under way.
pub struct NameAllocator {
    prefix: String,
    draws: Vec<u32>,
    attempt: usize,
}

impl NameAllocator {
    pub closed spec fn prefix(&self) -> Seq<char> {
        self.prefix@
    }

    pub closed spec fn draws(&self) -> Seq<u32> {
        self.draws@
    }

    /// The index of the attempt under way.
    pub closed spec fn attempt(&self) -> int {
        self.attempt as int
    }

    /// The name tried by the attempt under way.
    pub open spec fn candidate(&self) -> Seq<char> {
        candidate_spec(self.prefix(), self.draws()[self.attempt()] as int)
    }

    pub open spec fn wf(&self) -> bool {
        &&& valid_draws(self.draws())
        &&& 0 <= self.attempt() < MAX_ATTEMPTS
    }

    /// Starts an allocation for `prefix` with the given suffixes.
    pub fn new(prefix: &str, draws: Vec<u32>) -> (a: NameAllocator)
        requires
            valid_draws(draws@),
        ensures
            a.wf(),
            a.prefix() == prefix@,
            a.draws() == draws@,
            a.attempt() == 0,
    {
        NameAllocator { prefix: String::from_str(prefix), draws, attempt: 0 }
    }

    /// The name to try for the attempt under way.
    pub fn current(&self) -> (r: String)
        requires
            self.wf(),
        ensures
            r@ == self.candidate(),
    {
        candidate_name(self.prefix.as_str(), self.draws[self.attempt])
    }

    /// Takes in what the exclusive create of the current name reported. A
    /// taken name moves on to the next drawn suffix, until the attempts run
    /// out; a store failure ends the allocation.
    pub fn advance(&mut self, res: CreateResult) -> (s: Step)
        requires
            old(self).wf(),
        ensures
            final(self).wf(),
            final(self).prefix() == old(self).prefix(),
            final(self).draws() == old(self).draws(),
            res == CreateResult::Created ==> {
                &&& s is Committed
                &&& s->Committed_0@ == old(self).candidate()
                &&& final(self).attempt() == old(self).attempt()
            },
            res == CreateResult::Failed ==> {
                &&& s == Step::Failed(ErrorKind::IoError)
                &&& final(self).attempt() == old(self).attempt()
            },
            res == CreateResult::AlreadyExists && old(self).attempt() + 1 < MAX_ATTEMPTS ==> {
                &&& final(self).attempt() == old(self).attempt() + 1
                &&& s is Try
                &&& s->Try_0@ == final(self).candidate()
            },
            res == CreateResult::AlreadyExists && old(self).attempt() + 1 >= MAX_ATTEMPTS ==> {
                &&& final(self).attempt() == old(self).attempt()
                &&& s == Step::Failed(ErrorKind::ExhaustedAttempts)
            },
    {
        match res {
            CreateResult::Created => Step::Committed(self.current()),
            CreateResult::Failed => Step::Failed(ErrorKind::IoError),
            CreateResult::AlreadyExists => {
                if self.attempt + 1 < MAX_ATTEMPTS {
                    self.attempt = self.attempt + 1;
                    Step::Try(self.current())
                } else {
                    Step::Failed(ErrorKind::ExhaustedAttempts)
                }
            },
        }
    }
}

} // verus!
