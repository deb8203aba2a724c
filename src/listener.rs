use vstd::prelude::*;
use crate::store::{appended, PendingOpens};

verus! {

/// A locator as the operating system hands it over.
#[verifier::external_type_specification]
#[verifier::external_body]
pub struct ExUrl(url::Url);

/// Relies on url::Url::to_file_path, and on Path::to_string_lossy for the
/// text of the path. The locator resolves only where it names a local file;
/// a path that it gives is absolute, hence never empty.
#[verifier::external_body]
fn file_path_of(locator: &url::Url) -> (r: Option<String>)
    ensures
        r matches Some(path) ==> path@.len() > 0,
{
    locator.to_file_path().ok().map(|path| path.to_string_lossy().to_string())
}

/// The paths among `resolved`, in their order; locators that did not
/// resolve leave nothing.
pub open spec fn resolved_paths(resolved: Seq<Option<String>>) -> Seq<String>
    decreases resolved.len(),
{
    if resolved.len() == 0 {
        Seq::empty()
    } else {
        let before = resolved_paths(resolved.drop_last());
        match resolved.last() {
            Some(path) => before.push(path),
            None => before,
        }
    }
}

/// Keeps the paths of the locators that resolved, in their order, and drops
/// the others.
pub fn file_paths(resolved: &Vec<Option<String>>) -> (paths: Vec<String>)
    ensures
        paths@ == resolved_paths(resolved@),
{
    let n = resolved.len();
    let mut paths: Vec<String> = Vec::new();
    let mut i: usize = 0;
    while i < n
        invariant
            n == resolved@.len(),
            i <= n,
            paths@ == resolved_paths(resolved@.subrange(0, i as int)),
        decreases n - i,
    {
        assert(resolved@.subrange(0, i + 1).drop_last() =~= resolved@.subrange(0, i as int));
        match &resolved[i] {
            Some(path) => paths.push(path.clone()),
            None => {},
        }
        i += 1;
    }
    assert(resolved@.subrange(0, n as int) =~= resolved@);
    paths
}

/// How "open this file" signals reach the application on this platform.
#[derive(Clone, Copy, Debug, PartialEq, Eq, Structural)]
pub enum OpenListener {
    /// The platform delivers open-file signals: they are stored and
    /// announced.
    Native,
    /// The platform has no open-file signal: nothing is ever stored.
    Unsupported,
}

impl OpenListener {
    /// The listener for a platform that does, or does not, deliver
    /// open-file signals.
    pub fn for_platform(signals_supported: bool) -> (l: Self)
        ensures
            (l == OpenListener::Native) == signals_supported,
    {
        if signals_supported {
            OpenListener::Native
        } else {
            OpenListener::Unsupported
        }
    }

    /// Handles a signal whose locators have been resolved: stores the
    /// paths among them and returns the paths to announce to a live
    /// consumer, or `None` where there is nothing to announce.
    pub fn accept_resolved(&self, store: &mut PendingOpens, resolved: &Vec<Option<String>>) -> (notice:
        Option<Vec<String>>)
        ensures
            *self == OpenListener::Unsupported ==> notice is None && final(store)@ == old(store)@,
            *self == OpenListener::Native ==> {
                let paths = resolved_paths(resolved@);
                &&& final(store)@ == appended(old(store)@, paths)
                &&& notice is None <==> paths.len() == 0
                &&& notice matches Some(p) ==> p@ == paths
            },
    {
        match self {
            OpenListener::Unsupported => None,
            OpenListener::Native => {
                let paths = file_paths(resolved);
                if paths.len() == 0 {
                    proof {
                        crate::store::law_empty_append_is_no_op(old(store)@);
                    }
                    return None;
                }
                let announced = paths.clone();
                store.append(paths);
                Some(announced)
            },
        }
    }

    /// Handles a signal carrying `locators`: resolves each to a local path,
    /// stores those that resolve and returns them for announcement. A
    /// signal in which nothing resolves stores and announces nothing; on a
    /// platform without open-file signals nothing is resolved at all.
    pub fn on_opened(&self, store: &mut PendingOpens, locators: &Vec<url::Url>) -> (notice: Option<
        Vec<String>>)
        ensures
            *self == OpenListener::Unsupported ==> notice is None,
            notice is None ==> final(store)@ == old(store)@,
            notice matches Some(p) ==> {
                &&& final(store)@ == appended(old(store)@, p@)
                &&& 0 < p@.len() <= locators@.len()
                &&& forall|i: int| 0 <= i < p@.len() ==> p@[i]@.len() > 0
            },
    {
        match self {
            OpenListener::Unsupported => None,
            OpenListener::Native => {
                let resolved = resolve_locators(locators);
                proof {
                    lemma_resolved_paths_bounded(resolved@);
                }
                self.accept_resolved(store, &resolved)
            },
        }
    }
}

/// Resolves each locator to a local path, or to `None` where it names no
/// local file; one result per locator, in their order. Touches no buffer,
/// so it can run before the buffer's lock is taken.
pub fn resolve_locators(locators: &Vec<url::Url>) -> (resolved: Vec<Option<String>>)
    ensures
        resolved@.len() == locators@.len(),
        forall|j: int|
            0 <= j < resolved@.len() ==> (#[trigger] resolved@[j] matches Some(path) ==> path@.len()
                > 0),
{
    let n = locators.len();
    let mut resolved: Vec<Option<String>> = Vec::new();
    let mut i: usize = 0;
    while i < n
        invariant
            n == locators@.len(),
            i <= n,
            resolved@.len() == i,
            forall|j: int|
                0 <= j < i ==> (#[trigger] resolved@[j] matches Some(path) ==> path@.len() > 0),
        decreases n - i,
    {
        resolved.push(file_path_of(&locators[i]));
        i += 1;
    }
    resolved
}

/// Resolving never yields more paths than there were locators, and each
/// path kept is one that resolved.
proof fn lemma_resolved_paths_bounded(resolved: Seq<Option<String>>)
    ensures
        resolved_paths(resolved).len() <= resolved.len(),
        forall|i: int|
            0 <= i < resolved_paths(resolved).len() ==> exists|j: int|
                0 <= j < resolved.len() && #[trigger] resolved[j] == Some(
                    #[trigger] resolved_paths(resolved)[i],
                ),
    decreases resolved.len(),
{
    if resolved.len() > 0 {
        let init = resolved.drop_last();
        lemma_resolved_paths_bounded(init);
        assert forall|i: int| 0 <= i < resolved_paths(resolved).len() implies exists|j: int|
            0 <= j < resolved.len() && #[trigger] resolved[j] == Some(
                #[trigger] resolved_paths(resolved)[i],
            ) by {
            if i < resolved_paths(init).len() {
                let j = choose|j: int|
                    0 <= j < init.len() && #[trigger] init[j] == Some(resolved_paths(init)[i]);
                assert(resolved[j] == init[j]);
            } else {
                assert(resolved[resolved.len() - 1] == resolved.last());
            }
        }
    }
}

/// Filtering keeps no state from one list to the next: the paths of two
/// lists of locators, one after the other, are the paths of each list
/// joined in order. A list in which nothing resolved yields no path.
pub proof fn law_filtering_is_stateless(first: Seq<Option<String>>, second: Seq<Option<String>>)
    ensures
        resolved_paths(first + second) == resolved_paths(first) + resolved_paths(second),
        (forall|i: int| 0 <= i < second.len() ==> #[trigger] second[i] is None) ==> resolved_paths(
            second,
        ) == Seq::<String>::empty(),
    decreases second.len(),
{
    if second.len() == 0 {
        assert(first + second =~= first);
        assert(resolved_paths(first) + Seq::<String>::empty() =~= resolved_paths(first));
    } else {
        let init = second.drop_last();
        law_filtering_is_stateless(first, init);
        assert((first + second).drop_last() =~= first + init);
        assert((first + second).last() == second.last());
        assert(forall|i: int| 0 <= i < init.len() ==> init[i] == second[i]);
        match second.last() {
            Some(path) => {
                assert(resolved_paths(first) + resolved_paths(init).push(path) =~= (resolved_paths(
                    first,
                ) + resolved_paths(init)).push(path));
            },
            None => {},
        }
    }
}

} // verus!
