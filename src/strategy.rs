//! Which saved profiles a recovery pass attempts, and in what order.

use vstd::prelude::*;

verus! {

/// Recovery policy: which saved profiles are worth a connect attempt.
#[derive(Clone, Debug)]
pub enum ConnectStrategy {
    /// Only saved profiles whose name matches a currently visible network.
    ScanOnly,
    /// Every saved profile, visible or not.
    All,
    /// Only the saved profiles named here.
    Explicit(Vec<String>),
}

/// True when some entry of `names` spells the same text as `p`.
pub open spec fn names_contain(names: Seq<String>, p: String) -> bool {
    exists|j: int| 0 <= j < names.len() && (#[trigger] names[j])@ == p@
}

/// The entries of `saved` that `names` lists, in the order of `saved`.
pub open spec fn keep_listed(saved: Seq<String>, names: Seq<String>) -> Seq<String> {
    saved.filter(listed_by(names))
}

/// Membership in `names`, as a predicate.
pub open spec fn listed_by(names: Seq<String>) -> spec_fn(String) -> bool {
    |p: String| names_contain(names, p)
}

/// One step of the filter: the last saved entry is kept exactly when listed.
proof fn lemma_keep_listed_step(saved: Seq<String>, names: Seq<String>)
    requires
        saved.len() > 0,
    ensures
        keep_listed(saved, names) == if names_contain(names, saved.last()) {
            keep_listed(saved.drop_last(), names).push(saved.last())
        } else {
            keep_listed(saved.drop_last(), names)
        },
{
    reveal_with_fuel(Seq::filter, 1);
}

/// The profiles that `strategy` selects out of `saved`, given the visible set
/// if a scan was made.
pub open spec fn selection(
    saved: Seq<String>,
    strategy: ConnectStrategy,
    visible: Option<Seq<String>>,
) -> Seq<String> {
    match strategy {
        ConnectStrategy::ScanOnly => match visible {
            Some(v) => keep_listed(saved, v),
            None => Seq::empty(),
        },
        ConnectStrategy::All => saved,
        ConnectStrategy::Explicit(names) => keep_listed(saved, names@),
    }
}

/// Whether `names` lists `p`.
pub(crate) fn listed(names: &[String], p: &String) -> (r: bool)
    ensures
        r == names_contain(names@, *p),
{
    let mut j: usize = 0;
    while j < names.len()
        invariant
            0 <= j <= names@.len(),
            forall|k: int| 0 <= k < j ==> (#[trigger] names@[k])@ != p@,
        decreases names@.len() - j,
    {
        if names[j] == *p {
            return true;
        }
        j += 1;
    }
    false
}

/// The entries of `saved` that `names` lists, in the order of `saved`.
fn keep_named(saved: &[String], names: &[String]) -> (r: Vec<String>)
    ensures
        r@ == keep_listed(saved@, names@),
{
    let mut out: Vec<String> = Vec::new();
    let mut i: usize = 0;
    while i < saved.len()
        invariant
            0 <= i <= saved@.len(),
            out@ == keep_listed(saved@.take(i as int), names@),
        decreases saved@.len() - i,
    {
        proof {
            assert(saved@.take(i + 1).drop_last() == saved@.take(i as int));
            lemma_keep_listed_step(saved@.take(i + 1), names@);
        }
        if listed(names, &saved[i]) {
            out.push(saved[i].clone());
        }
        i += 1;
    }
    proof {
        assert(saved@.take(saved@.len() as int) == saved@);
    }
    out
}

/// A copy of `v`, entry for entry.
fn copy_names(v: &[String]) -> (r: Vec<String>)
    ensures
        r@ == v@,
{
    let mut out: Vec<String> = Vec::new();
    let mut i: usize = 0;
    while i < v.len()
        invariant
            0 <= i <= v@.len(),
            out@ == v@.take(i as int),
        decreases v@.len() - i,
    {
        out.push(v[i].clone());
        proof {
            assert(out@ == v@.take(i + 1));
        }
        i += 1;
    }
    proof {
        assert(v@.take(v@.len() as int) == v@);
    }
    out
}

/// The saved profiles that `strategy` selects, in their enumeration order.
/// `ScanOnly` without a visible set selects nothing: the selector never
/// scans on its own.
pub fn filter_profiles_by_strategy(
    saved: &[String],
    strategy: &ConnectStrategy,
    available_names: Option<&Vec<String>>,
) -> (r: Vec<String>)
    ensures
        r@ == selection(
            saved@,
            *strategy,
            match available_names {
                Some(v) => Some(v@),
                None => None,
            },
        ),
{
    match strategy {
        ConnectStrategy::ScanOnly => match available_names {
            Some(v) => keep_named(saved, v.as_slice()),
            None => Vec::new(),
        },
        ConnectStrategy::All => copy_names(saved),
        ConnectStrategy::Explicit(names) => keep_named(saved, names.as_slice()),
    }
}

/// The watchdog's command-line options, as plain values.
pub struct Cli {
    /// Check once, attempt recovery at most once, then exit.
    pub once: bool,
    /// Seconds between two reachability checks.
    pub interval: u64,
    /// URL of the reachability probe.
    pub ncsi_url: String,
    /// Timeout of one probe, in seconds.
    pub ncsi_timeout: u64,
    /// Try every saved profile, visible or not.
    pub all: bool,
    /// Try only these saved profiles.
    pub profiles: Option<Vec<String>>,
}

impl Cli {
    /// The strategy the options ask for: a non-empty profile list wins over
    /// `all`, and scan-only is the default.
    pub fn connect_strategy(&self) -> (r: ConnectStrategy)
        ensures
            match self.profiles {
                Some(names) if names@.len() > 0 => match r {
                    ConnectStrategy::Explicit(n) => n@ == names@,
                    _ => false,
                },
                _ => if self.all {
                    r == ConnectStrategy::All
                } else {
                    r == ConnectStrategy::ScanOnly
                },
            },
    {
        if let Some(names) = &self.profiles {
            if names.len() > 0 {
                return ConnectStrategy::Explicit(copy_names(names.as_slice()));
            }
        }
        if self.all {
            return ConnectStrategy::All;
        }
        ConnectStrategy::ScanOnly
    }
}

/// Filtering by a name list keeps exactly the listed entries, in order, and
/// keeps nothing when no entry is listed.
proof fn lemma_keep_listed_members(saved: Seq<String>, names: Seq<String>)
    ensures
        forall|k: int|
            0 <= k < keep_listed(saved, names).len() ==> names_contain(
                names,
                #[trigger] keep_listed(saved, names)[k],
            ) && saved.contains(keep_listed(saved, names)[k]),
        forall|i: int|
            0 <= i < saved.len() && names_contain(names, #[trigger] saved[i])
                ==> keep_listed(saved, names).contains(saved[i]),
        (forall|i: int| 0 <= i < saved.len() ==> !names_contain(names, #[trigger] saved[i]))
            ==> keep_listed(saved, names).len() == 0,
    decreases saved.len(),
{
    saved.filter_lemma(listed_by(names));
    if saved.len() > 0 {
        lemma_keep_listed_step(saved, names);
        lemma_keep_listed_members(saved.drop_last(), names);
        if forall|i: int| 0 <= i < saved.len() ==> !names_contain(names, #[trigger] saved[i]) {
            assert(!names_contain(names, saved[saved.len() - 1]));
            assert forall|i: int|
                0 <= i < saved.drop_last().len() implies !names_contain(
                    names,
                    #[trigger] saved.drop_last()[i],
                ) by {
                assert(saved.drop_last()[i] == saved[i]);
            }
        }
    }
}

/// Filtering a filtered list by the same names changes nothing.
proof fn lemma_keep_listed_twice(saved: Seq<String>, names: Seq<String>)
    ensures
        keep_listed(keep_listed(saved, names), names) == keep_listed(saved, names),
    decreases saved.len(),
{
    if saved.len() > 0 {
        lemma_keep_listed_twice(saved.drop_last(), names);
        lemma_keep_listed_step(saved, names);
        let rest = keep_listed(saved.drop_last(), names);
        if names_contain(names, saved.last()) {
            let kept = rest.push(saved.last());
            assert(kept.drop_last() == rest);
            lemma_keep_listed_step(kept, names);
        }
    }
}

/// With `All`, the selection is the saved list itself, in its order.
pub proof fn lemma_select_all(saved: Seq<String>, visible: Option<Seq<String>>)
    ensures
        selection(saved, ConnectStrategy::All, visible) == saved,
{
}

/// With `Explicit(names)`, the selection is the order-preserving filter of the
/// saved list by `names`: each selected profile is saved and named, each saved
/// and named profile is selected, and nothing is selected when `names` is
/// empty or shares no name with the saved list.
pub proof fn lemma_select_explicit(
    saved: Seq<String>,
    names: Vec<String>,
    visible: Option<Seq<String>>,
)
    ensures
        selection(saved, ConnectStrategy::Explicit(names), visible) == saved.filter(
            listed_by(names@),
        ),
        forall|k: int|
            0 <= k < selection(saved, ConnectStrategy::Explicit(names), visible).len()
                ==> names_contain(
                names@,
                #[trigger] selection(saved, ConnectStrategy::Explicit(names), visible)[k],
            ) && saved.contains(selection(saved, ConnectStrategy::Explicit(names), visible)[k]),
        forall|i: int|
            0 <= i < saved.len() && names_contain(names@, #[trigger] saved[i]) ==> selection(
                saved,
                ConnectStrategy::Explicit(names),
                visible,
            ).contains(saved[i]),
        (names@.len() == 0 || forall|i: int|
            0 <= i < saved.len() ==> !names_contain(names@, #[trigger] saved[i])) ==> selection(
            saved,
            ConnectStrategy::Explicit(names),
            visible,
        ).len() == 0,
{
    lemma_keep_listed_members(saved, names@);
}

/// With `ScanOnly` and no visible set, nothing is selected.
pub proof fn lemma_select_scan_only_unscanned(saved: Seq<String>)
    ensures
        selection(saved, ConnectStrategy::ScanOnly, None) == Seq::<String>::empty(),
{
}

/// With `ScanOnly` and a visible set, the selection is the order-preserving
/// intersection of the saved list with the visible set.
pub proof fn lemma_select_scan_only(saved: Seq<String>, visible: Seq<String>)
    ensures
        selection(saved, ConnectStrategy::ScanOnly, Some(visible)) == saved.filter(
            listed_by(visible),
        ),
        forall|k: int|
            0 <= k < selection(saved, ConnectStrategy::ScanOnly, Some(visible)).len()
                ==> names_contain(
                visible,
                #[trigger] selection(saved, ConnectStrategy::ScanOnly, Some(visible))[k],
            ) && saved.contains(selection(saved, ConnectStrategy::ScanOnly, Some(visible))[k]),
        forall|i: int|
            0 <= i < saved.len() && names_contain(visible, #[trigger] saved[i]) ==> selection(
                saved,
                ConnectStrategy::ScanOnly,
                Some(visible),
            ).contains(saved[i]),
{
    lemma_keep_listed_members(saved, visible);
}

/// Selection depends on its inputs alone, so two selections from the same
/// inputs agree; and selecting again from a selection changes nothing.
pub proof fn lemma_select_idempotent(
    saved: Seq<String>,
    strategy: ConnectStrategy,
    visible: Option<Seq<String>>,
)
    ensures
        selection(saved, strategy, visible) == selection(saved, strategy, visible),
        selection(selection(saved, strategy, visible), strategy, visible) == selection(
            saved,
            strategy,
            visible,
        ),
{
    match strategy {
        ConnectStrategy::ScanOnly => match visible {
            Some(v) => lemma_keep_listed_twice(saved, v),
            None => {},
        },
        ConnectStrategy::All => {},
        ConnectStrategy::Explicit(names) => lemma_keep_listed_twice(saved, names@),
    }
}

} // verus!
