//! Companion-session decisions: picking a companion device by name and the
//! bounded retry policy used while enabling a session.

use vstd::prelude::*;

verus! {

/// Right single quotation mark.
pub const RIGHT_SINGLE_QUOTE: char = '\u{2019}';

/// Left single quotation mark.
pub const LEFT_SINGLE_QUOTE: char = '\u{2018}';

/// Modifier letter apostrophe.
pub const MODIFIER_APOSTROPHE: char = '\u{02BC}';

/// The characters that name matching treats as an apostrophe.
pub open spec fn is_apostrophe_variant(c: char) -> bool {
    c == '\'' || c == RIGHT_SINGLE_QUOTE || c == LEFT_SINGLE_QUOTE || c == MODIFIER_APOSTROPHE
}

/// One character after quote normalisation.
pub open spec fn normalise_char(c: char) -> char {
    if is_apostrophe_variant(c) {
        '\''
    } else {
        c
    }
}

/// A text with every typographic apostrophe replaced by the ASCII one.
pub open spec fn normalised(s: Seq<char>) -> Seq<char> {
    s.map_values(|c: char| normalise_char(c))
}

/// Two names are the same name once apostrophes are normalised.
pub open spec fn names_match_spec(a: Seq<char>, b: Seq<char>) -> bool {
    normalised(a) == normalised(b)
}

/// Replace common Unicode quote variants with the plain ASCII apostrophe.
pub fn normalise_quotes(s: &str) -> (r: String)
    ensures
        r@ == normalised(s@),
{
    let n = s.unicode_len();
    let mut out = String::new();
    let mut i: usize = 0;
    while i < n
        invariant
            n == s@.len(),
            i <= n,
            out@ == normalised(s@.subrange(0, i as int)),
        decreases n - i,
    {
        let c = s.get_char(i);
        if c == RIGHT_SINGLE_QUOTE || c == LEFT_SINGLE_QUOTE || c == MODIFIER_APOSTROPHE {
            proof {
                reveal_strlit("'");
            }
            out.append("'");
        } else {
            out.append(s.substring_char(i, i + 1));
        }
        assert(s@.subrange(0, i + 1) == s@.subrange(0, i as int).push(c));
        assert(normalised(s@.subrange(0, i + 1)) == normalised(s@.subrange(0, i as int)).push(
            normalise_char(c),
        ));
        i = i + 1;
    }
    assert(s@.subrange(0, n as int) == s@);
    out
}

/// Whether two device names are equal once apostrophes are normalised.
pub fn names_match(a: &str, b: &str) -> (r: bool)
    ensures
        r == names_match_spec(a@, b@),
{
    let na = normalise_quotes(a);
    let nb = normalise_quotes(b);
    na == nb
}

/// Normalising a text twice gives the same text as normalising it once.
pub proof fn lemma_normalise_idempotent(s: Seq<char>)
    ensures
        normalised(normalised(s)) == normalised(s),
{
    assert(normalised(normalised(s)) =~= normalised(s));
}

/// Name matching does not depend on the order of its arguments.
pub proof fn lemma_names_match_symmetric(a: Seq<char>, b: Seq<char>)
    ensures
        names_match_spec(a, b) == names_match_spec(b, a),
{
}

/// Replacing one apostrophe variant by another, on either side, does not
/// change whether two names match.
pub proof fn lemma_names_match_apostrophe_invariant(a: Seq<char>, b: Seq<char>, i: int, c: char)
    requires
        0 <= i < a.len(),
        is_apostrophe_variant(a[i]),
        is_apostrophe_variant(c),
    ensures
        names_match_spec(a.update(i, c), b) == names_match_spec(a, b),
        names_match_spec(b, a.update(i, c)) == names_match_spec(b, a),
{
    assert(normalised(a.update(i, c)) =~= normalised(a));
}

/// The index of the companion device that a selector picks among the
/// reachable devices, given by their names (`None` for a device without one):
/// the first device when no name is configured, else the first whose name
/// matches the configured one.
pub open spec fn device_matches(names: Seq<Option<String>>, target: Option<Seq<char>>, i: int) -> bool {
    match target {
        None => true,
        Some(t) => names[i] is Some && names_match_spec(names[i]->0@, t),
    }
}

/// The configured name, as characters.
pub open spec fn selector_view(target: Option<&str>) -> Option<Seq<char>> {
    match target {
        Some(t) => Some(t@),
        None => None,
    }
}

/// Pick the companion device to use: the first reachable one when `target`
/// is `None`, else the first whose name matches `target` up to apostrophes.
pub fn select_device(names: &Vec<Option<String>>, target: Option<&str>) -> (r: Option<usize>)
    ensures
        match r {
            Some(i) => i < names@.len() && device_matches(names@, selector_view(target), i as int)
                && forall|j: int| 0 <= j < i ==> !device_matches(names@, selector_view(target), j),
            None => forall|j: int| 0 <= j < names@.len() ==> !device_matches(names@, selector_view(target), j),
        },
{
    let ghost tv = selector_view(target);
    match target {
        None => {
            if names.len() > 0 {
                Some(0)
            } else {
                None
            }
        },
        Some(t) => {
            let wanted = normalise_quotes(t);
            let mut i: usize = 0;
            while i < names.len()
                invariant
                    i <= names@.len(),
                    tv == Some(t@),
                    tv == selector_view(target),
                    wanted@ == normalised(t@),
                    forall|j: int| 0 <= j < i ==> !device_matches(names@, tv, j),
                decreases names@.len() - i,
            {
                match &names[i] {
                    Some(name) => {
                        let n = normalise_quotes(name.as_str());
                        if n == wanted {
                            assert(names@[i as int] == Some(*name));
                            return Some(i);
                        }
                    },
                    None => {},
                }
                i = i + 1;
            }
            None
        },
    }
}

/// The names to show for the reachable devices, a placeholder standing in
/// for a device without a name.
pub fn display_names(names: &Vec<Option<String>>) -> (r: Vec<String>)
    ensures
        r@.len() == names@.len(),
        forall|i: int|
            0 <= i < names@.len() ==> (#[trigger] r@[i])@ == match names@[i] {
                Some(n) => n@,
                None => "<unnamed>"@,
            },
{
    let mut out: Vec<String> = Vec::new();
    let mut i: usize = 0;
    while i < names.len()
        invariant
            i <= names@.len(),
            out@.len() == i,
            forall|k: int|
                0 <= k < i ==> (#[trigger] out@[k])@ == match names@[k] {
                    Some(n) => n@,
                    None => "<unnamed>"@,
                },
        decreases names@.len() - i,
    {
        let shown = match &names[i] {
            Some(n) => n.clone(),
            None => String::from_str("<unnamed>"),
        };
        out.push(shown);
        i = i + 1;
    }
    out
}

/// Whether the companion service loaded: monitoring may only start when the
/// attempt to load it succeeded.
pub fn ensure_loaded(load_result: &Result<(), String>) -> (r: bool)
    ensures
        r == (load_result is Ok),
{
    load_result.is_ok()
}

/// How many device lookups an enable request makes at most.
pub const MAX_RETRIES: u32 = 10;

/// Seconds to wait between two lookups of an enable request.
pub const RETRY_DELAY_SECS: u64 = 2;

/// What to do after one lookup of an enable request.
#[derive(Clone, Copy, Debug, PartialEq, Eq, Structural)]
pub enum EnableAction {
    /// Enable the session on the device at this index of the lookup.
    Connect(usize),
    /// Nothing found yet: wait the retry delay and look again; on the first
    /// attempt, also list the reachable devices for the operator.
    Wait { list_devices: bool },
    /// Nothing found and the attempts are spent: warn and stop.
    GiveUp { list_devices: bool },
}

/// The bounded retry policy of an enable request.
pub struct EnableRetry {
    attempt: u32,
    finished: bool,
}

/// The policy's answer to one lookup: the next attempt number, whether the
/// request is over, and the action.
pub open spec fn retry_step(attempt: u32, found: Option<usize>) -> (u32, bool, EnableAction) {
    match found {
        Some(i) => (attempt, true, EnableAction::Connect(i)),
        None => if attempt < MAX_RETRIES {
            ((attempt + 1) as u32, false, EnableAction::Wait { list_devices: attempt == 1 })
        } else {
            (attempt, true, EnableAction::GiveUp { list_devices: attempt == 1 })
        },
    }
}

/// The actions of an enable request whose lookups never find a device, from
/// the given attempt on, with at most `fuel` lookups.
pub open spec fn actions_without_device(attempt: u32, fuel: nat) -> Seq<EnableAction>
    decreases fuel,
{
    if fuel == 0 {
        Seq::empty()
    } else {
        let (next, done, a) = retry_step(attempt, None);
        if done {
            seq![a]
        } else {
            seq![a] + actions_without_device(next, (fuel - 1) as nat)
        }
    }
}

impl EnableRetry {
    pub closed spec fn attempt(&self) -> u32 {
        self.attempt
    }

    pub closed spec fn is_finished(&self) -> bool {
        self.finished
    }

    /// Attempts are numbered from one up to the maximum.
    pub open spec fn wf(&self) -> bool {
        1 <= self.attempt() <= MAX_RETRIES
    }

    /// A new enable request, before its first lookup.
    pub fn new() -> (r: Self)
        ensures
            r.wf(),
            r.attempt() == 1,
            !r.is_finished(),
    {
        EnableRetry { attempt: 1, finished: false }
    }

    /// The number of the next lookup, from one.
    pub fn current_attempt(&self) -> (r: u32)
        ensures
            r == self.attempt(),
    {
        self.attempt
    }

    /// Whether the request is over: a device was found or the attempts are spent.
    pub fn finished(&self) -> (r: bool)
        ensures
            r == self.is_finished(),
    {
        self.finished
    }

    /// Record the result of one lookup (the index of the selected device, if
    /// any) and say what to do next.
    pub fn on_lookup(&mut self, found: Option<usize>) -> (r: EnableAction)
        requires
            old(self).wf(),
            !old(self).is_finished(),
        ensures
            final(self).wf(),
            (final(self).attempt(), final(self).is_finished(), r) == retry_step(old(self).attempt(), found),
    {
        match found {
            Some(i) => {
                self.finished = true;
                EnableAction::Connect(i)
            },
            None => {
                let list_devices = self.attempt == 1;
                if self.attempt < MAX_RETRIES {
                    self.attempt = self.attempt + 1;
                    EnableAction::Wait { list_devices }
                } else {
                    self.finished = true;
                    EnableAction::GiveUp { list_devices }
                }
            },
        }
    }
}

/// When no device ever matches, an enable request makes exactly
/// `MAX_RETRIES` lookups, waits between each two of them (so one wait fewer),
/// lists the reachable devices after the first, and then gives up.
pub proof fn lemma_retry_exhaustion(fuel: nat)
    requires
        fuel >= MAX_RETRIES,
    ensures
        actions_without_device(1, fuel).len() == MAX_RETRIES,
        forall|k: int|
            0 <= k < MAX_RETRIES - 1 ==> #[trigger] actions_without_device(1, fuel)[k]
                == (EnableAction::Wait { list_devices: k == 0 }),
        actions_without_device(1, fuel)[MAX_RETRIES - 1] == (EnableAction::GiveUp {
            list_devices: false,
        }),
{
    lemma_actions_from(1, fuel);
}

proof fn lemma_actions_from(attempt: u32, fuel: nat)
    requires
        1 <= attempt <= MAX_RETRIES,
        fuel >= MAX_RETRIES - attempt + 1,
    ensures
        actions_without_device(attempt, fuel).len() == MAX_RETRIES - attempt + 1,
        forall|k: int|
            0 <= k < MAX_RETRIES - attempt ==> #[trigger] actions_without_device(attempt, fuel)[k]
                == (EnableAction::Wait { list_devices: attempt + k == 1 }),
        actions_without_device(attempt, fuel)[MAX_RETRIES - attempt] == (EnableAction::GiveUp {
            list_devices: attempt == 1 && MAX_RETRIES == 1,
        }),
    decreases MAX_RETRIES - attempt,
{
    if attempt < MAX_RETRIES {
        let next = (attempt + 1) as u32;
        lemma_actions_from(next, (fuel - 1) as nat);
        let rest = actions_without_device(next, (fuel - 1) as nat);
        let all = actions_without_device(attempt, fuel);
        assert(all == seq![EnableAction::Wait { list_devices: attempt == 1 }] + rest);
        assert forall|k: int| 0 <= k < MAX_RETRIES - attempt implies #[trigger] all[k]
            == EnableAction::Wait { list_devices: attempt + k == 1 } by {
            if k > 0 {
                assert(all[k] == rest[k - 1]);
            }
        }
        assert(all[MAX_RETRIES - attempt] == rest[MAX_RETRIES - next]);
    }
}

} // verus!
