//! Going through the media files: in order, at random, and back through what
//! was seen.

use crate::media::{extension_of, is_image, is_supported_file, is_video, lowers_ascii,
    matches_filter, MediaFilter, ViewOrder};
use rand::seq::SliceRandom;
use vstd::prelude::*;

verus! {

/// The list of paths that `<[std::path::PathBuf]>::sort` makes of a list of
/// paths. Paths are compared as the platform that the crate is built for
/// compares them.
pub uninterp spec fn sorted_paths(paths: Seq<Seq<char>>) -> Seq<Seq<char>>;

/// Whether `<std::path::Path as PartialOrd>::le` puts the first path at or before
/// the second: part by part, as the platform that the crate is built for compares
/// them.
pub uninterp spec fn path_at_most(a: Seq<char>, b: Seq<char>) -> bool;

/// Two texts name the same path: they are the same text, or neither path comes
/// after the other.
pub open spec fn same_path(a: Seq<char>, b: Seq<char>) -> bool {
    a == b || (path_at_most(a, b) && path_at_most(b, a))
}

/// The path is in the list, under this text or another.
pub open spec fn lists_path(list: Seq<Seq<char>>, path: Seq<char>) -> bool {
    exists|i: int| 0 <= i < list.len() && same_path(#[trigger] list[i], path)
}

/// The paths ascend.
pub open spec fn in_path_order(paths: Seq<Seq<char>>) -> bool {
    forall|i: int, j: int|
        0 <= i < j < paths.len() ==> path_at_most(#[trigger] paths[i], #[trigger] paths[j])
}

/// Calls `<std::path::Path as PartialOrd>::le`. The result is named by
/// `path_at_most`: it depends on the texts of the paths alone, read by the rules
/// of the platform that the crate is built for; the file system is not asked.
#[verifier::external_body]
fn path_le(a: &str, b: &str) -> (r: bool)
    ensures
        r == path_at_most(a@, b@),
{
    std::path::Path::new(a) <= std::path::Path::new(b)
}

/// Whether two texts name the same path.
pub fn is_same_path(a: &String, b: &String) -> (r: bool)
    ensures
        r == same_path(a@, b@),
{
    *a == *b || (path_le(a.as_str(), b.as_str()) && path_le(b.as_str(), a.as_str()))
}

/// Calls `sort` on a vector of `std::path::PathBuf`. The result is named by
/// `sorted_paths`; it holds the same paths, each as often, and none is after a
/// later one by the order of paths, which `path_at_most` names.
#[verifier::external_body]
fn sort_paths(paths: Vec<String>) -> (r: Vec<String>)
    ensures
        strings(r@) == sorted_paths(strings(paths@)),
        strings(r@).to_multiset() == strings(paths@).to_multiset(),
        forall|i: int, j: int|
            0 <= i < j < strings(r@).len() ==> path_at_most(
                #[trigger] strings(r@)[i],
                #[trigger] strings(r@)[j],
            ),
{
    let mut list: Vec<std::path::PathBuf> = paths.into_iter().map(std::path::PathBuf::from).collect();
    list.sort();
    list.into_iter().map(|p| p.to_string_lossy().into_owned()).collect()
}

/// Calls `rand::seq::SliceRandom::choose` with the thread's generator: gives
/// some element of the slice, and none only where there is none. Which one is
/// left to chance.
#[verifier::external_body]
fn choose_one(candidates: &[usize]) -> (r: Option<usize>)
    ensures
        match r {
            Some(i) => candidates@.contains(i),
            None => candidates@.len() == 0,
        },
{
    candidates.choose(&mut rand::thread_rng()).copied()
}

/// The texts of a list of strings.
pub open spec fn strings(list: Seq<String>) -> Seq<Seq<char>> {
    list.map_values(|s: String| s@)
}

/// Where the viewer is, and where it has been.
pub struct Navigator {
    /// The files that the scan of the folder has found.
    pub media_paths: Vec<String>,
    /// The files shown, in the order in which they first were.
    pub history: Vec<String>,
    /// The place in the history of the file on display.
    pub history_index: Option<usize>,
    pub current: Option<String>,
    pub filter: MediaFilter,
    pub order: ViewOrder,
    pub scanning: bool,
    pub scan_count: usize,
}

/// `Navigator` with its paths as texts.
#[verifier::ext_equal]
pub struct NavModel {
    pub paths: Seq<Seq<char>>,
    pub history: Seq<Seq<char>>,
    pub history_index: Option<usize>,
    pub current: Option<Seq<char>>,
    pub filter: MediaFilter,
    pub order: ViewOrder,
    pub scanning: bool,
    pub scan_count: usize,
}

impl View for Navigator {
    type V = NavModel;

    open spec fn view(&self) -> NavModel {
        NavModel {
            paths: strings(self.media_paths@),
            history: strings(self.history@),
            history_index: self.history_index,
            current: match self.current {
                Some(p) => Some(p@),
                None => None,
            },
            filter: self.filter,
            order: self.order,
            scanning: self.scanning,
            scan_count: self.scan_count,
        }
    }
}

/// The numbers below `n` that have a property, in ascending order.
pub open spec fn numbers_where(n: nat, pred: spec_fn(int) -> bool) -> Seq<usize>
    decreases n,
{
    if n == 0 {
        Seq::empty()
    } else if pred(n - 1) {
        numbers_where((n - 1) as nat, pred).push((n - 1) as usize)
    } else {
        numbers_where((n - 1) as nat, pred)
    }
}

/// `numbers_where` gives exactly the numbers with the property.
pub proof fn numbers_where_holds(n: nat, pred: spec_fn(int) -> bool)
    requires
        n <= usize::MAX,
    ensures
        forall|k: int|
            0 <= k < numbers_where(n, pred).len() ==> (#[trigger] numbers_where(n, pred)[k]) < n
                && pred(numbers_where(n, pred)[k] as int),
        forall|i: int|
            0 <= i < n && #[trigger] pred(i) ==> numbers_where(n, pred).contains(i as usize),
    decreases n,
{
    if n > 0 {
        let m = (n - 1) as nat;
        numbers_where_holds(m, pred);
        let before = numbers_where(m, pred);
        let all = numbers_where(n, pred);
        assert forall|i: int| 0 <= i < n && #[trigger] pred(i) implies all.contains(i as usize) by {
            if i < m {
                let k = choose|k: int| 0 <= k < before.len() && before[k] == i as usize;
                assert(all[k] == i as usize);
            } else {
                assert(all[all.len() - 1] == i as usize);
            }
        }
    }
}

/// `numbers_where` gives its numbers in ascending order.
pub proof fn numbers_where_in_order(n: nat, pred: spec_fn(int) -> bool)
    requires
        n <= usize::MAX,
    ensures
        forall|k: int, m: int|
            0 <= k < m < numbers_where(n, pred).len() ==> (#[trigger] numbers_where(n, pred)[k]) < (
            #[trigger] numbers_where(n, pred)[m]),
    decreases n,
{
    if n > 0 {
        numbers_where_in_order((n - 1) as nat, pred);
        numbers_where_holds((n - 1) as nat, pred);
        let before = numbers_where((n - 1) as nat, pred);
        let all = numbers_where(n, pred);
        assert forall|k: int, m: int| 0 <= k < m < all.len() implies (#[trigger] all[k]) < (
        #[trigger] all[m]) by {
            assert(all[k] == before[k]);
            if m < before.len() {
                assert(all[m] == before[m]);
            }
        }
    }
}

impl NavModel {
    /// The place in the history is one that the history has, and the count of
    /// the scan is that of the files listed.
    pub open spec fn wf(self) -> bool {
        &&& self.history_index matches Some(i) ==> i < self.history.len()
        &&& self.scan_count == self.paths.len()
    }

    pub open spec fn admits(self, path: Seq<char>) -> bool {
        self.filter.admits(path)
    }

    /// The first place from `i` on in the history that the filter admits.
    pub open spec fn next_in_history(self, i: nat) -> Option<usize>
        decreases self.history.len() - i,
    {
        if i >= self.history.len() {
            None
        } else if self.admits(self.history[i as int]) {
            Some(i as usize)
        } else {
            self.next_in_history(i + 1)
        }
    }

    /// The last place before `i` in the history that the filter admits.
    pub open spec fn previous_in_history(self, i: nat) -> Option<usize>
        decreases i,
    {
        if i == 0 {
            None
        } else if self.admits(self.history[i - 1]) {
            Some((i - 1) as usize)
        } else {
            self.previous_in_history((i - 1) as nat)
        }
    }

    /// Showing the file at place `i` of the history.
    pub open spec fn at_history(self, i: usize) -> NavModel {
        NavModel {
            history_index: Some(i),
            current: Some(self.history[i as int]),
            ..self
        }
    }

    /// The place of `path` in the list of files from `i` on: the first.
    pub open spec fn place_of(self, path: Seq<char>, i: nat) -> Option<nat>
        decreases self.paths.len() - i,
    {
        if i >= self.paths.len() {
            None
        } else if same_path(self.paths[i as int], path) {
            Some(i)
        } else {
            self.place_of(path, i + 1)
        }
    }

    /// Where a walk in order starts: at the file on display, if it is in the
    /// list, else outside of it, so that the first step leads to the near end.
    pub open spec fn walk_start(self, forward: bool) -> int {
        let place = match self.current {
            Some(p) => self.place_of(p, 0),
            None => None,
        };
        match place {
            Some(i) => i as int,
            None => if forward {
                -1
            } else {
                self.paths.len() as int
            },
        }
    }

    /// Where step `k` of a walk in order leads, round the ends of the list.
    pub open spec fn walk_place(self, forward: bool, k: int) -> int {
        let start = self.walk_start(forward);
        if forward {
            (start + k) % self.paths.len() as int
        } else {
            (start - k) % self.paths.len() as int
        }
    }

    /// The file that a walk in order leads to: the first from step `k` on that
    /// the filter admits, within one round.
    pub open spec fn walk_target(self, forward: bool, k: nat) -> Option<Seq<char>>
        decreases self.paths.len() + 1 - k,
    {
        if k > self.paths.len() {
            None
        } else if self.admits(self.paths[self.walk_place(forward, k as int)]) {
            Some(self.paths[self.walk_place(forward, k as int)])
        } else {
            self.walk_target(forward, k + 1)
        }
    }

    /// With `path` on display, the history as it was.
    pub open spec fn showing(self, path: Seq<char>) -> NavModel {
        NavModel { current: Some(path), ..self }
    }

    /// The file at `path` is on display.
    pub open spec fn displays(self, path: Seq<char>) -> bool {
        self.current matches Some(p) && same_path(p, path)
    }

    /// The files that the filter admits and that were not seen yet.
    pub open spec fn unseen(self) -> Seq<usize> {
        numbers_where(
            self.paths.len(),
            |i: int| self.admits(self.paths[i]) && !lists_path(self.history, self.paths[i]),
        )
    }

    /// The files that the filter admits, but for the one on display.
    pub open spec fn others(self) -> Seq<usize> {
        numbers_where(
            self.paths.len(),
            |i: int| self.admits(self.paths[i]) && !self.displays(self.paths[i]),
        )
    }

    /// The files that the filter admits.
    pub open spec fn admitted(self) -> Seq<usize> {
        numbers_where(self.paths.len(), |i: int| self.admits(self.paths[i]))
    }

    /// The files among which chance decides: those not seen yet; once all were
    /// seen, all but the one on display; where that is the only one, that one.
    pub open spec fn candidates(self) -> Seq<usize> {
        if self.unseen().len() > 0 {
            self.unseen()
        } else if self.others().len() > 0 {
            self.others()
        } else if self.admitted().len() > 0 {
            self.admitted().take(1)
        } else {
            Seq::empty()
        }
    }

    /// With the file of number `i` added to the history and on display.
    pub open spec fn visiting(self, i: usize) -> NavModel {
        NavModel {
            history: self.history.push(self.paths[i as int]),
            history_index: Some(self.history.len() as usize),
            current: Some(self.paths[i as int]),
            ..self
        }
    }

    /// With a scan of another folder begun.
    pub open spec fn scan_started(self) -> NavModel {
        NavModel {
            paths: Seq::empty(),
            history: Seq::empty(),
            history_index: None,
            current: None,
            scanning: true,
            scan_count: 0,
            ..self
        }
    }
}

impl NavModel {
    /// The place in the history to which going forward leads.
    pub open spec fn forward_place(self) -> Option<usize> {
        match self.history_index {
            Some(i) => self.next_in_history((i + 1) as nat),
            None => None,
        }
    }

    /// The place in the history to which going back leads.
    pub open spec fn backward_place(self) -> Option<usize> {
        match self.history_index {
            Some(i) => self.previous_in_history(i as nat),
            None => None,
        }
    }
}

/// Nothing scanned, nothing seen: everything may be shown, at random.
pub open spec fn nothing_seen() -> NavModel {
    NavModel {
        paths: Seq::empty(),
        history: Seq::empty(),
        history_index: None,
        current: None,
        filter: MediaFilter::All,
        order: ViewOrder::Random,
        scanning: false,
        scan_count: 0,
    }
}

/// What going on at random may come to: one of the candidates is on display and
/// was added to the history, and it is the one to load. Where there is no
/// candidate, nothing changes.
pub open spec fn random_outcome(before: NavModel, after: NavModel, load: Option<String>) -> bool {
    if before.candidates().len() == 0 {
        load is None && after == before
    } else {
        load is Some && exists|i: usize| #[trigger]
            before.candidates().contains(i) && i < before.paths.len() && after == before.visiting(i)
                && load->0@ == before.paths[i as int]
    }
}

/// What a step through the list in order comes to: the next file that the
/// filter admits is on display and is the one to load, or nothing changes.
pub open spec fn ordered_outcome(
    before: NavModel,
    after: NavModel,
    load: Option<String>,
    forward: bool,
) -> bool {
    match before.walk_target(forward, 1) {
        Some(path) => load is Some && load->0@ == path && after == before.showing(path),
        None => load is None && after == before,
    }
}

/// What going to a place in the history comes to, where there is one.
pub open spec fn history_outcome(
    before: NavModel,
    after: NavModel,
    load: Option<String>,
    place: usize,
) -> bool {
    load is Some && load->0@ == before.history[place as int] && after == before.at_history(place)
}

/// What going to the next file comes to: in order, the next in the list; else
/// the next in the history that the filter admits, or one at random.
pub open spec fn next_outcome(before: NavModel, after: NavModel, load: Option<String>) -> bool {
    match before.order {
        ViewOrder::Ordered => ordered_outcome(before, after, load, true),
        ViewOrder::Random => match before.forward_place() {
            Some(place) => history_outcome(before, after, load, place),
            None => random_outcome(before, after, load),
        },
    }
}

/// What going back to the file before comes to: in order, the one before in the
/// list; else the one before in the history that the filter admits, if any.
pub open spec fn prev_outcome(before: NavModel, after: NavModel, load: Option<String>) -> bool {
    match before.order {
        ViewOrder::Ordered => ordered_outcome(before, after, load, false),
        ViewOrder::Random => match before.backward_place() {
            Some(place) => history_outcome(before, after, load, place),
            None => load is None && after == before,
        },
    }
}

/// A walk that starts outside the list starts just before its near end.
proof fn walk_begins(n: int, start: int, at: int, forward: bool, inside: bool)
    requires
        n > 0,
        inside ==> 0 <= start < n && at == start,
        !inside && forward ==> start == -1 && at == n - 1,
        !inside && !forward ==> start == n && at == 0,
    ensures
        at == (if forward {
            (start + 0) % n
        } else {
            (start - 0) % n
        }),
{
    if inside {
        vstd::arithmetic::div_mod::lemma_small_mod(start as nat, n as nat);
    } else if forward {
        vstd::arithmetic::div_mod::lemma_fundamental_div_mod_converse(-1, n, -1, n - 1);
    } else {
        vstd::arithmetic::div_mod::lemma_mod_self_0(n);
    }
}

/// One step further round the list.
proof fn walk_steps(n: int, start: int, k: int, at: int, forward: bool)
    requires
        n > 0,
        at == (if forward {
            (start + k) % n
        } else {
            (start - k) % n
        }),
    ensures
        forward ==> (start + (k + 1)) % n == (if at == n - 1 {
            0
        } else {
            at + 1
        }),
        !forward ==> (start - (k + 1)) % n == (if at == 0 {
            n - 1
        } else {
            at - 1
        }),
{
    if forward {
        one_up(start + k, n);
    } else {
        one_down(start - k, n);
    }
}

proof fn one_up(x: int, n: int)
    requires
        n > 0,
    ensures
        (x + 1) % n == (if x % n == n - 1 {
            0
        } else {
            x % n + 1
        }),
{
    vstd::arithmetic::div_mod::lemma_fundamental_div_mod(x, n);
    let q = x / n;
    assert(n * q == q * n) by (nonlinear_arith);
    if x % n == n - 1 {
        assert((q + 1) * n == q * n + n) by (nonlinear_arith);
        vstd::arithmetic::div_mod::lemma_fundamental_div_mod_converse(x + 1, n, q + 1, 0);
    } else {
        vstd::arithmetic::div_mod::lemma_fundamental_div_mod_converse(x + 1, n, q, x % n + 1);
    }
}

proof fn one_down(x: int, n: int)
    requires
        n > 0,
    ensures
        (x - 1) % n == (if x % n == 0 {
            n - 1
        } else {
            x % n - 1
        }),
{
    vstd::arithmetic::div_mod::lemma_fundamental_div_mod(x, n);
    let q = x / n;
    assert(n * q == q * n) by (nonlinear_arith);
    if x % n == 0 {
        assert((q - 1) * n == q * n - n) by (nonlinear_arith);
        vstd::arithmetic::div_mod::lemma_fundamental_div_mod_converse(x - 1, n, q - 1, n - 1);
    } else {
        vstd::arithmetic::div_mod::lemma_fundamental_div_mod_converse(x - 1, n, q, x % n - 1);
    }
}

impl Navigator {
    /// Nothing scanned, nothing seen.
    pub fn new() -> (r: Navigator)
        ensures
            r@ == nothing_seen(),
            r@.wf(),
    {
        Navigator {
            media_paths: Vec::new(),
            history: Vec::new(),
            history_index: None,
            current: None,
            filter: MediaFilter::All,
            order: ViewOrder::Random,
            scanning: false,
            scan_count: 0,
        }
    }

    /// A folder is about to be scanned: forgets all files, seen or not.
    pub fn start_scan(&mut self)
        ensures
            final(self)@ == old(self)@.scan_started(),
            final(self)@.wf(),
    {
        self.media_paths.clear();
        self.history.clear();
        self.history_index = None;
        self.current = None;
        self.scan_count = 0;
        self.scanning = true;
    }

    /// The scan has come upon a file: it is listed if it can be shown.
    pub fn scan_found(&mut self, path: String)
        requires
            old(self)@.scan_count < usize::MAX,
        ensures
            final(self)@ == (if is_image(path@) || is_video(path@) {
                NavModel {
                    paths: old(self)@.paths.push(path@),
                    scan_count: (old(self)@.scan_count + 1) as usize,
                    ..old(self)@
                }
            } else {
                old(self)@
            }),
            old(self)@.wf() ==> final(self)@.wf(),
            lowers_ascii(extension_of(path@)),
    {
        if is_supported_file(path.as_str()) {
            let ghost before = self.media_paths@;
            self.media_paths.push(path);
            self.scan_count = self.scan_count + 1;
            assert(strings(self.media_paths@) =~= strings(before).push(path@));
        }
    }

    /// The scan is over: puts the files in order.
    pub fn scan_finished(&mut self)
        ensures
            final(self)@ == (NavModel {
                paths: sorted_paths(old(self)@.paths),
                scanning: false,
                ..old(self)@
            }),
            final(self)@.paths.to_multiset() == old(self)@.paths.to_multiset(),
            in_path_order(final(self)@.paths),
            forall|i: int, j: int|
                0 <= i < j < final(self)@.paths.len() ==> path_at_most(
                    #[trigger] final(self)@.paths[i],
                    #[trigger] final(self)@.paths[j],
                ),
            old(self)@.wf() ==> final(self)@.wf(),
    {
        let mut paths: Vec<String> = Vec::new();
        paths.append(&mut self.media_paths);
        assert(paths@ =~= old(self).media_paths@);
        self.media_paths = sort_paths(paths);
        self.scanning = false;
        proof {
            self@.paths.to_multiset_ensures();
            old(self)@.paths.to_multiset_ensures();
        }
    }

    /// A file was opened by name: it joins the history and is on display.
    pub fn open_file(&mut self, path: String)
        ensures
            final(self)@ == (NavModel {
                history: old(self)@.history.push(path@),
                history_index: Some(0),
                current: Some(path@),
                ..old(self)@
            }),
            old(self)@.wf() ==> final(self)@.wf(),
    {
        let ghost before = self.history@;
        self.current = Some(path.clone());
        self.history.push(path);
        self.history_index = Some(0);
        assert(strings(self.history@) =~= strings(before).push(path@));
    }

    /// Goes on to the next filter.
    pub fn cycle_filter(&mut self)
        ensures
            final(self)@ == (NavModel { filter: old(self)@.filter.next(), ..old(self)@ }),
            old(self)@.wf() ==> final(self)@.wf(),
    {
        self.filter = self.filter.cycle();
    }

    /// Changes between going in order and at random.
    pub fn toggle_order(&mut self)
        ensures
            final(self)@ == (NavModel { order: old(self)@.order.other(), ..old(self)@ }),
            old(self)@.wf() ==> final(self)@.wf(),
    {
        self.order = self.order.toggle();
    }

    fn show_history(&mut self, i: usize) -> (r: String)
        requires
            i < old(self)@.history.len(),
        ensures
            final(self)@ == old(self)@.at_history(i),
            r@ == old(self)@.history[i as int],
    {
        let path = self.history[i].clone();
        self.history_index = Some(i);
        self.current = Some(path.clone());
        path
    }

    fn forward_in_history(&mut self) -> (r: Option<String>)
        requires
            old(self)@.wf(),
        ensures
            match old(self)@.forward_place() {
                Some(i) => final(self)@ == old(self)@.at_history(i) && r is Some && r->0@
                    == old(self)@.history[i as int] && i < old(self)@.history.len(),
                None => final(self)@ == old(self)@ && r is None,
            },
    {
        if let Some(index) = self.history_index {
            let len: usize = self.history.len();
            let mut next: usize = index + 1;
            while next < len
                invariant
                    len == self.history@.len(),
                    *self == *old(self),
                    old(self)@.wf(),
                    next <= len,
                    self@.forward_place() == self@.next_in_history(next as nat),
                decreases len - next,
            {
                if matches_filter(self.history[next].as_str(), self.filter) {
                    return Some(self.show_history(next));
                }
                next = next + 1;
            }
        }
        None
    }

    /// Steps through the list of files in order, past those that the filter
    /// holds back and round the ends. Gives the file to load, if there is one.
    pub fn ordered_step(&mut self, forward: bool) -> (r: Option<String>)
        ensures
            match old(self)@.walk_target(forward, 1) {
                Some(path) => r is Some && r->0@ == path && final(self)@ == old(self)@.showing(
                    path,
                ),
                None => r is None && final(self)@ == old(self)@,
            },
            old(self)@.wf() ==> final(self)@.wf(),
    {
        let n: usize = self.media_paths.len();
        if n == 0 {
            return None;
        }
        let place = match &self.current {
            Some(p) => self.find_place(p),
            None => None,
        };
        // The place from which the next step starts.
        let mut at: usize = match place {
            Some(i) => i,
            None => if forward {
                n - 1
            } else {
                0
            },
        };
        let ghost start = self@.walk_start(forward);
        proof {
            assert(self@.paths.len() == n);
            walk_begins(n as int, start, at as int, forward, place is Some);
        }
        let mut k: usize = 0;
        while k < n
            invariant
                *self == *old(self),
                n == self.media_paths@.len(),
                n > 0,
                k <= n,
                at < n,
                start == self@.walk_start(forward),
                at == (if forward {
                    (start + k) % n as int
                } else {
                    (start - k) % n as int
                }),
                self@.walk_target(forward, 1) == self@.walk_target(forward, (k + 1) as nat),
            decreases n - k,
        {
            proof {
                walk_steps(n as int, start, k as int, at as int, forward);
            }
            at = if forward {
                if at == n - 1 {
                    0
                } else {
                    at + 1
                }
            } else {
                if at == 0 {
                    n - 1
                } else {
                    at - 1
                }
            };
            k = k + 1;
            assert(at == self@.walk_place(forward, k as int));
            if matches_filter(self.media_paths[at].as_str(), self.filter) {
                let path = self.media_paths[at].clone();
                self.current = Some(path.clone());
                return Some(path);
            }
        }
        None
    }

    fn find_place(&self, path: &String) -> (r: Option<usize>)
        ensures
            match r {
                Some(i) => self@.place_of(path@, 0) == Some(i as nat) && i < self@.paths.len(),
                None => self@.place_of(path@, 0) is None,
            },
    {
        let n: usize = self.media_paths.len();
        let mut i: usize = 0;
        while i < n
            invariant
                n == self.media_paths@.len(),
                i <= n,
                self@.place_of(path@, 0) == self@.place_of(path@, i as nat),
            decreases n - i,
        {
            if is_same_path(&self.media_paths[i], path) {
                return Some(i);
            }
            i = i + 1;
        }
        None
    }

    fn seen(&self, path: &String) -> (r: bool)
        ensures
            r == lists_path(self@.history, path@),
    {
        let n: usize = self.history.len();
        let mut i: usize = 0;
        while i < n
            invariant
                n == self.history@.len(),
                i <= n,
                forall|j: int| 0 <= j < i ==> !same_path(#[trigger] self@.history[j], path@),
            decreases n - i,
        {
            if is_same_path(&self.history[i], path) {
                assert(same_path(self@.history[i as int], path@));
                return true;
            }
            i = i + 1;
        }
        false
    }

    /// The numbers of the files among which chance decides what comes next.
    pub fn random_candidates(&self) -> (r: Vec<usize>)
        ensures
            r@ == self@.candidates(),
            forall|k: int| 0 <= k < r@.len() ==> (#[trigger] r@[k]) < self@.paths.len(),
    {
        let n: usize = self.media_paths.len();
        let mut unseen: Vec<usize> = Vec::new();
        let mut others: Vec<usize> = Vec::new();
        let mut first: Vec<usize> = Vec::new();
        let ghost m = self@;
        let ghost is_unseen = |i: int| m.admits(m.paths[i]) && !lists_path(m.history, m.paths[i]);
        let ghost is_other = |i: int| m.admits(m.paths[i]) && !m.displays(m.paths[i]);
        let ghost is_admitted = |i: int| m.admits(m.paths[i]);
        let mut i: usize = 0;
        while i < n
            invariant
                m == self@,
                n == self.media_paths@.len(),
                i <= n,
                is_unseen == (|i: int|
                    m.admits(m.paths[i]) && !lists_path(m.history, m.paths[i])),
                is_other == (|i: int| m.admits(m.paths[i]) && !m.displays(m.paths[i])),
                is_admitted == (|i: int| m.admits(m.paths[i])),
                unseen@ == numbers_where(i as nat, is_unseen),
                others@ == numbers_where(i as nat, is_other),
                first@.len() <= 1,
                first@ == numbers_where(i as nat, is_admitted).take(first@.len() as int),
                first@.len() == 0 ==> numbers_where(i as nat, is_admitted).len() == 0,
                first@.len() <= numbers_where(i as nat, is_admitted).len(),
            decreases n - i,
        {
            if matches_filter(self.media_paths[i].as_str(), self.filter) {
                if !self.seen(&self.media_paths[i]) {
                    unseen.push(i);
                }
                let on_display = match &self.current {
                    Some(p) => is_same_path(p, &self.media_paths[i]),
                    None => false,
                };
                if !on_display {
                    others.push(i);
                }
                if first.len() == 0 {
                    first.push(i);
                }
            }
            i = i + 1;
            assert(first@ =~= numbers_where(i as nat, is_admitted).take(first@.len() as int));
        }
        proof {
            numbers_where_holds(n as nat, is_unseen);
            numbers_where_holds(n as nat, is_other);
            numbers_where_holds(n as nat, is_admitted);
        }
        if unseen.len() > 0 {
            unseen
        } else if others.len() > 0 {
            others
        } else {
            assert(first@.len() == 0 ==> first@ =~= Seq::empty());
            first
        }
    }

    /// Shows the file that chance has picked, if any, as the latest of the
    /// history. Gives the file to load.
    pub fn visit_random(&mut self, choice: Option<usize>) -> (r: Option<String>)
        requires
            choice matches Some(i) ==> i < old(self)@.paths.len(),
        ensures
            match choice {
                Some(i) => r is Some && r->0@ == old(self)@.paths[i as int] && final(self)@
                    == old(self)@.visiting(i),
                None => r is None && final(self)@ == old(self)@,
            },
            old(self)@.wf() ==> final(self)@.wf(),
    {
        match choice {
            Some(i) => {
                let path = self.media_paths[i].clone();
                let ghost before = self.history@;
                self.history.push(path.clone());
                assert(strings(self.history@) =~= strings(before).push(path@));
                self.history_index = Some(self.history.len() - 1);
                self.current = Some(path.clone());
                Some(path)
            },
            None => None,
        }
    }

    /// Shows a file picked at random from the candidates. Gives the file to
    /// load, if there is one.
    pub fn next_random_media(&mut self) -> (r: Option<String>)
        ensures
            random_outcome(old(self)@, final(self)@, r),
            old(self)@.wf() ==> final(self)@.wf(),
    {
        let candidates = self.random_candidates();
        let choice = choose_one(candidates.as_slice());
        self.visit_random(choice)
    }

    /// Goes to the next file. In order, that is the next in the list; else the
    /// next in the history that the filter admits, or, past its end, one picked
    /// at random. Gives the file to load, if there is one.
    pub fn go_next(&mut self) -> (r: Option<String>)
        requires
            old(self)@.wf(),
        ensures
            next_outcome(old(self)@, final(self)@, r),
            final(self)@.wf(),
    {
        if self.order == ViewOrder::Ordered {
            return self.ordered_step(true);
        }
        let found = self.forward_in_history();
        if found.is_some() {
            return found;
        }
        self.next_random_media()
    }

    /// Goes back to the file before. In order, that is the one before in the
    /// list; else the one before in the history that the filter admits. Gives
    /// the file to load, if there is one.
    pub fn go_prev(&mut self) -> (r: Option<String>)
        requires
            old(self)@.wf(),
        ensures
            prev_outcome(old(self)@, final(self)@, r),
            final(self)@.wf(),
    {
        if self.order == ViewOrder::Ordered {
            return self.ordered_step(false);
        }
        if let Some(index) = self.history_index {
            let mut prev: usize = index;
            while prev > 0
                invariant
                    *self == *old(self),
                    self@.wf(),
                    self@.history_index == Some(index),
                    self@.order == ViewOrder::Random,
                    prev <= index,
                    self@.backward_place() == self@.previous_in_history(prev as nat),
                decreases prev,
            {
                prev = prev - 1;
                if matches_filter(self.history[prev].as_str(), self.filter) {
                    return Some(self.show_history(prev));
                }
            }
        }
        None
    }
}

/// At the end of the history: going back after a step at random leads to where
/// the step started.
pub proof fn back_undoes_random_step(m: NavModel, i: usize)
    requires
        m.wf(),
        m.history.len() > 0,
        m.history.len() < usize::MAX,
        m.history_index == Some((m.history.len() - 1) as usize),
        m.current == Some(m.history.last()),
        m.admits(m.history.last()),
        i < m.paths.len(),
    ensures
        m.visiting(i).backward_place() == m.history_index,
        m.visiting(i).at_history(m.history_index->0).current == m.current,
        m.visiting(i).at_history(m.history_index->0).forward_place() is Some
            <==> m.admits(m.paths[i as int]),
{
    let a = m.visiting(i);
    let last = (m.history.len() - 1) as usize;
    assert(a.history[last as int] == m.history.last());
    let b = a.at_history(last);
    assert(b.history[last + 1] == m.paths[i as int]);
    reveal_with_fuel(NavModel::next_in_history, 3);
}

/// As long as there are files that were not seen, chance decides among those
/// alone; it never picks a file that the filter holds back.
pub proof fn unseen_come_first(m: NavModel, k: int)
    requires
        m.paths.len() <= usize::MAX,
        0 <= k < m.candidates().len(),
    ensures
        m.candidates()[k] < m.paths.len(),
        m.admits(m.paths[m.candidates()[k] as int]),
        m.unseen().len() > 0 ==> !lists_path(m.history, m.paths[m.candidates()[k] as int]),
        m.others().len() > 0 && m.unseen().len() == 0 ==> !m.displays(
            m.paths[m.candidates()[k] as int],
        ),
{
    let n = m.paths.len();
    numbers_where_holds(
        n,
        |i: int| m.admits(m.paths[i]) && !lists_path(m.history, m.paths[i]),
    );
    numbers_where_holds(n, |i: int| m.admits(m.paths[i]) && !m.displays(m.paths[i]));
    numbers_where_holds(n, |i: int| m.admits(m.paths[i]));
}

/// There is a candidate exactly where the filter admits some file.
pub proof fn candidate_if_any_admitted(m: NavModel)
    requires
        m.paths.len() <= usize::MAX,
    ensures
        m.candidates().len() > 0 <==> exists|i: int|
            0 <= i < m.paths.len() && m.admits(#[trigger] m.paths[i]),
{
    let n = m.paths.len();
    let is_admitted = |i: int| m.admits(m.paths[i]);
    numbers_where_holds(n, is_admitted);
    if m.candidates().len() > 0 {
        unseen_come_first(m, 0);
        assert(m.admits(m.paths[m.candidates()[0] as int]));
    }
    if exists|i: int| 0 <= i < m.paths.len() && m.admits(#[trigger] m.paths[i]) {
        let i = choose|i: int| 0 <= i < m.paths.len() && m.admits(#[trigger] m.paths[i]);
        assert(is_admitted(i));
        assert(m.admitted().contains(i as usize));
    }
}

/// A walk in order leads only to files of the list that the filter admits.
pub proof fn walk_leads_to_admitted(m: NavModel, forward: bool, k: nat)
    requires
        m.paths.len() > 0,
    ensures
        m.walk_target(forward, k) matches Some(p) ==> m.admits(p) && m.paths.contains(p),
    decreases m.paths.len() + 1 - k,
{
    if k <= m.paths.len() {
        let n = m.paths.len() as int;
        let x = if forward {
            m.walk_start(forward) + k
        } else {
            m.walk_start(forward) - k
        };
        vstd::arithmetic::div_mod::lemma_mod_bound(x, n);
        assert(m.paths.contains(m.paths[m.walk_place(forward, k as int)]));
        walk_leads_to_admitted(m, forward, k + 1);
    }
}

/// A walk that finds nothing from step `k` on has looked at every step.
proof fn walk_misses(m: NavModel, forward: bool, k: nat)
    requires
        m.walk_target(forward, k) is None,
    ensures
        forall|j: int|
            k <= j <= m.paths.len() ==> !m.admits(m.paths[#[trigger] m.walk_place(forward, j)]),
    decreases m.paths.len() + 1 - k,
{
    if k <= m.paths.len() {
        walk_misses(m, forward, k + 1);
    }
}

/// Within one round a walk in order comes by every file, so it finds one
/// wherever the filter admits some file.
pub proof fn walk_comes_by_every_file(m: NavModel, forward: bool, i: int)
    requires
        0 <= i < m.paths.len(),
    ensures
        exists|k: int| 1 <= k <= m.paths.len() && #[trigger] m.walk_place(forward, k) == i,
        m.admits(m.paths[i]) ==> m.walk_target(forward, 1) is Some,
{
    let n = m.paths.len() as int;
    let start = m.walk_start(forward);
    let d = if forward {
        i - start - 1
    } else {
        start - i - 1
    };
    let k = d % n + 1;
    vstd::arithmetic::div_mod::lemma_mod_bound(d, n);
    vstd::arithmetic::div_mod::lemma_fundamental_div_mod(d, n);
    let q = d / n;
    if forward {
        assert((-q) * n == -(n * q)) by (nonlinear_arith);
        vstd::arithmetic::div_mod::lemma_fundamental_div_mod_converse(start + k, n, -q, i);
    } else {
        assert(q * n == n * q) by (nonlinear_arith);
        vstd::arithmetic::div_mod::lemma_fundamental_div_mod_converse(start - k, n, q, i);
    }
    assert(m.walk_place(forward, k) == i);
    if m.admits(m.paths[i]) && m.walk_target(forward, 1) is None {
        walk_misses(m, forward, 1);
    }
}

/// The place of a file that stands in the list once is found.
pub proof fn place_is_found(m: NavModel, i: int, from: nat)
    requires
        from <= i < m.paths.len(),
        forall|a: int, b: int|
            0 <= a < b < m.paths.len() ==> !same_path(#[trigger] m.paths[a], #[trigger] m.paths[b]),
    ensures
        m.place_of(m.paths[i], from) == Some(i as nat),
    decreases i - from,
{
    if from < i {
        assert(!same_path(m.paths[from as int], m.paths[i]));
        place_is_found(m, i, from + 1);
    }
}

/// A walk that finds a file finds the first that the filter admits.
proof fn walk_finds_the_first(m: NavModel, forward: bool, from: nat) -> (k: nat)
    requires
        m.walk_target(forward, from) is Some,
    ensures
        from <= k <= m.paths.len(),
        m.walk_target(forward, from) == Some(m.paths[m.walk_place(forward, k as int)]),
        m.admits(m.paths[m.walk_place(forward, k as int)]),
        forall|l: int|
            from <= l < k ==> !m.admits(m.paths[#[trigger] m.walk_place(forward, l)]),
    decreases m.paths.len() + 1 - from,
{
    if m.admits(m.paths[m.walk_place(forward, from as int)]) {
        from
    } else {
        walk_finds_the_first(m, forward, from + 1)
    }
}

/// The first file that the filter admits is the one that a walk finds.
proof fn walk_stops_at_the_first(m: NavModel, forward: bool, from: nat, k: nat)
    requires
        from <= k <= m.paths.len(),
        m.admits(m.paths[m.walk_place(forward, k as int)]),
        forall|l: int|
            from <= l < k ==> !m.admits(m.paths[#[trigger] m.walk_place(forward, l)]),
    ensures
        m.walk_target(forward, from) == Some(m.paths[m.walk_place(forward, k as int)]),
    decreases k - from,
{
    if from < k {
        assert(!m.admits(m.paths[m.walk_place(forward, from as int)]));
        walk_stops_at_the_first(m, forward, from + 1, k);
    }
}

/// Going on from a place round the list is going on from where it came from.
proof fn round_the_list(x: int, t: int, n: int)
    requires
        n > 0,
    ensures
        (x % n + t) % n == (x + t) % n,
{
    vstd::arithmetic::div_mod::lemma_fundamental_div_mod(x, n);
    let q = x / n;
    assert(n * (-q) == -(n * q)) by (nonlinear_arith);
    vstd::arithmetic::div_mod::lemma_mod_multiples_vanish(-q, x + t, n);
}

/// In a list of different files, with one on display that the filter admits, by
/// whatever text it was opened, a step forward and a step back lead to where they
/// started, and so do a step back and a step forward.
pub proof fn steps_in_order_undo_each_other(m: NavModel, i: int, forward: bool)
    requires
        0 <= i < m.paths.len(),
        forall|a: int, b: int|
            0 <= a < b < m.paths.len() ==> !same_path(#[trigger] m.paths[a], #[trigger] m.paths[b]),
        m.admits(m.paths[i]),
        m.current matches Some(p) && m.place_of(p, 0) == Some(i as nat),
    ensures
        m.walk_target(forward, 1) is Some,
        m.showing(m.walk_target(forward, 1)->0).walk_target(!forward, 1) == Some(m.paths[i]),
{
    let n = m.paths.len() as int;
    walk_comes_by_every_file(m, forward, i);
    let k = walk_finds_the_first(m, forward, 1);
    let j = m.walk_place(forward, k as int);
    let there = if forward {
        i + k
    } else {
        i - k
    };
    vstd::arithmetic::div_mod::lemma_mod_bound(there, n);
    let back = !forward;
    let a = m.showing(m.paths[j]);
    place_is_found(a, j, 0);
    assert forall|t: int| 0 <= t <= k implies #[trigger] a.walk_place(back, t)
        == m.walk_place(forward, k - t) by {
        if forward {
            round_the_list(there, -t, n);
        } else {
            round_the_list(there, t, n);
        }
    }
    vstd::arithmetic::div_mod::lemma_small_mod(i as nat, n as nat);
    assert(a.walk_place(back, k as int) == i);
    assert forall|l: int| 1 <= l < k implies !a.admits(
        a.paths[#[trigger] a.walk_place(back, l)],
    ) by {
        assert(!m.admits(m.paths[m.walk_place(forward, k - l)]));
    }
    walk_stops_at_the_first(a, back, 1, k);
}

/// Going back in the history leads to the nearest place before the present one that
/// the filter admits, and nowhere exactly where there is none.
pub proof fn back_leads_to_the_nearest_before(m: NavModel, i: usize)
    requires
        m.history_index == Some(i),
        i <= m.history.len(),
    ensures
        match m.backward_place() {
            Some(p) => p < i && m.filter.admits(m.history[p as int]) && forall|k: int|
                p < k < i ==> !m.filter.admits(#[trigger] m.history[k]),
            None => forall|k: int| 0 <= k < i ==> !m.filter.admits(#[trigger] m.history[k]),
        },
{
    previous_is_the_nearest(m, i as nat);
}

proof fn previous_is_the_nearest(m: NavModel, i: nat)
    requires
        i <= usize::MAX,
    ensures
        match m.previous_in_history(i) {
            Some(p) => p < i && m.admits(m.history[p as int]) && forall|k: int|
                p < k < i ==> !m.admits(#[trigger] m.history[k]),
            None => forall|k: int| 0 <= k < i ==> !m.admits(#[trigger] m.history[k]),
        },
    decreases i,
{
    if i > 0 && !m.admits(m.history[i - 1]) {
        previous_is_the_nearest(m, (i - 1) as nat);
    }
}

/// Going forward in the history leads to the nearest place behind the present one
/// that the filter admits, and nowhere exactly where there is none.
pub proof fn forward_leads_to_the_nearest_behind(m: NavModel, i: usize)
    requires
        m.history_index == Some(i),
        m.history.len() <= usize::MAX,
    ensures
        match m.forward_place() {
            Some(p) => i < p < m.history.len() && m.filter.admits(m.history[p as int]) && forall|
                k: int,
            |
                i < k < p ==> !m.filter.admits(#[trigger] m.history[k]),
            None => forall|k: int|
                i < k < m.history.len() ==> !m.filter.admits(#[trigger] m.history[k]),
        },
{
    next_is_the_nearest(m, (i + 1) as nat);
}

proof fn next_is_the_nearest(m: NavModel, i: nat)
    requires
        m.history.len() <= usize::MAX,
    ensures
        match m.next_in_history(i) {
            Some(p) => i <= p < m.history.len() && m.admits(m.history[p as int]) && forall|k: int|
                i <= k < p ==> !m.admits(#[trigger] m.history[k]),
            None => forall|k: int|
                i <= k < m.history.len() ==> !m.admits(#[trigger] m.history[k]),
        },
    decreases m.history.len() - i,
{
    if i < m.history.len() && !m.admits(m.history[i as int]) {
        next_is_the_nearest(m, i + 1);
    }
}

/// Without a place in the history there is nowhere to go in it.
pub proof fn no_place_leads_nowhere(m: NavModel)
    requires
        m.history_index is None,
    ensures
        m.forward_place() is None,
        m.backward_place() is None,
{
}

/// Going to a place in the history puts the file there on display and leaves the
/// history, the list and the choices as they are; so does showing a file of the
/// list, which leaves the place in the history too. A file visited at random is
/// added at the end of the history, which is then the present place.
pub proof fn going_somewhere_changes_what_is_on_display(m: NavModel, i: usize, path: Seq<char>)
    requires
        m.history.len() < usize::MAX,
    ensures
        ({
            let a = m.at_history(i);
            &&& a.current == Some(m.history[i as int])
            &&& a.history_index == Some(i)
            &&& a.history == m.history && a.paths == m.paths
            &&& a.filter == m.filter && a.order == m.order
            &&& a.scanning == m.scanning && a.scan_count == m.scan_count
        }),
        ({
            let a = m.showing(path);
            &&& a.current == Some(path)
            &&& a.history_index == m.history_index
            &&& a.history == m.history && a.paths == m.paths
            &&& a.filter == m.filter && a.order == m.order
            &&& a.scanning == m.scanning && a.scan_count == m.scan_count
        }),
        ({
            let a = m.visiting(i);
            &&& a.current == Some(m.paths[i as int])
            &&& a.history == m.history.push(m.paths[i as int])
            &&& a.history_index == Some(m.history.len() as usize)
            &&& a.history[a.history_index->0 as int] == m.paths[i as int]
            &&& a.paths == m.paths
            &&& a.filter == m.filter && a.order == m.order
            &&& a.scanning == m.scanning && a.scan_count == m.scan_count
        }),
{
}

/// A scan of a folder starts with nothing listed, nothing seen and nothing on
/// display; the filter and the order stay as they were chosen. At first everything
/// is shown, at random.
pub proof fn a_scan_starts_from_nothing(m: NavModel)
    ensures
        ({
            let a = m.scan_started();
            &&& a.paths.len() == 0 && a.history.len() == 0
            &&& a.history_index is None && a.current is None
            &&& a.scanning && a.scan_count == 0
            &&& a.filter == m.filter && a.order == m.order
        }),
        ({
            let a = nothing_seen();
            &&& a.paths.len() == 0 && a.history.len() == 0
            &&& a.history_index is None && a.current is None
            &&& !a.scanning && a.scan_count == 0
            &&& a.filter is All && a.order is Random
        }),
{
}

/// Two texts name the same path exactly if they are equal or neither comes after the
/// other. A file is seen if the history has its path, and on display if its path is
/// the one on display, under any text.
pub proof fn paths_are_known_by_any_text(m: NavModel, a: Seq<char>, b: Seq<char>)
    ensures
        same_path(a, b) <==> a == b || (path_at_most(a, b) && path_at_most(b, a)),
        lists_path(m.history, a) <==> exists|k: int|
            0 <= k < m.history.len() && same_path(#[trigger] m.history[k], a),
        m.displays(a) <==> m.current is Some && same_path(m.current->0, a),
        m.admits(a) <==> m.filter.admits(a),
{
}

/// The place of a path in the list is the first at which it stands.
pub proof fn the_first_place_is_found(m: NavModel, path: Seq<char>)
    ensures
        match m.place_of(path, 0) {
            Some(i) => i < m.paths.len() && same_path(m.paths[i as int], path) && forall|j: int|
                0 <= j < i ==> !same_path(#[trigger] m.paths[j], path),
            None => forall|j: int| 0 <= j < m.paths.len() ==> !same_path(#[trigger] m.paths[j], path),
        },
{
    first_place_from(m, path, 0);
}

proof fn first_place_from(m: NavModel, path: Seq<char>, from: nat)
    ensures
        match m.place_of(path, from) {
            Some(i) => from <= i < m.paths.len() && same_path(m.paths[i as int], path) && forall|
                j: int,
            |
                from <= j < i ==> !same_path(#[trigger] m.paths[j], path),
            None => forall|j: int|
                from <= j < m.paths.len() ==> !same_path(#[trigger] m.paths[j], path),
        },
    decreases m.paths.len() - from,
{
    if from < m.paths.len() && !same_path(m.paths[from as int], path) {
        first_place_from(m, path, from + 1);
    }
}

/// From the file on display, which stands at `c` in the list, a step in order leads
/// to the nearest file in its direction that the filter admits, round the end of the
/// list: `k` places on, if all between are held back.
pub proof fn steps_in_order_lead_to_the_nearest(m: NavModel, forward: bool, c: int, k: int)
    requires
        0 <= c < m.paths.len(),
        m.current matches Some(p) && same_path(m.paths[c], p) && forall|j: int|
            0 <= j < c ==> !same_path(#[trigger] m.paths[j], p),
        1 <= k <= m.paths.len(),
        m.filter.admits(m.paths[round(c, k, m.paths.len() as int, forward)]),
        forall|l: int|
            1 <= l < k ==> !m.filter.admits(
                m.paths[#[trigger] round(c, l, m.paths.len() as int, forward)],
            ),
    ensures
        m.walk_target(forward, 1) == Some(m.paths[round(c, k, m.paths.len() as int, forward)]),
{
    let n = m.paths.len() as int;
    the_first_place_is_found(m, m.current->0);
    let place = m.place_of(m.current->0, 0);
    assert(place is Some);
    if place->0 < c {
        assert(!same_path(m.paths[place->0 as int], m.current->0));
    } else if place->0 > c {
        assert(!same_path(m.paths[c], m.current->0));
    }
    assert(m.walk_start(forward) == c);
    assert forall|l: int| 1 <= l <= k implies m.walk_place(forward, l) == #[trigger] round(
        c,
        l,
        n,
        forward,
    ) by {
        round_is_the_remainder(c, l, n, forward);
    }
    assert forall|l: int| 1 <= l < k implies !m.admits(
        m.paths[#[trigger] m.walk_place(forward, l)],
    ) by {
        assert(!m.filter.admits(m.paths[round(c, l, n, forward)]));
    }
    assert(m.walk_place(forward, k) == round(c, k, n, forward));
    walk_stops_at_the_first(m, forward, 1, k as nat);
}

/// The place `k` on from `c`, or back, in a list of `n` that goes round.
pub open spec fn round(c: int, k: int, n: int, forward: bool) -> int {
    if forward {
        if c + k < n {
            c + k
        } else {
            c + k - n
        }
    } else {
        if c - k >= 0 {
            c - k
        } else {
            c - k + n
        }
    }
}

/// Within one round, `round` counts on or back by `k` and stays in the list.
pub proof fn round_stays_in_the_list(c: int, k: int, n: int, forward: bool)
    requires
        0 <= c < n,
        1 <= k <= n,
    ensures
        0 <= round(c, k, n, forward) < n,
        forward ==> round(c, k, n, forward) == c + k || round(c, k, n, forward) == c + k - n,
        !forward ==> round(c, k, n, forward) == c - k || round(c, k, n, forward) == c - k + n,
{
}

proof fn round_is_the_remainder(c: int, k: int, n: int, forward: bool)
    requires
        0 <= c < n,
        1 <= k <= n,
    ensures
        forward ==> (c + k) % n == round(c, k, n, forward),
        !forward ==> (c - k) % n == round(c, k, n, forward),
{
    let x = if forward {
        c + k
    } else {
        c - k
    };
    let r = round(c, k, n, forward);
    let q = if x >= n {
        1int
    } else if x < 0 {
        -1int
    } else {
        0int
    };
    assert(q * n == x - r) by (nonlinear_arith)
        requires
            (q == 1 && x - r == n) || (q == -1 && x - r == -n) || (q == 0 && x == r),
    ;
    vstd::arithmetic::div_mod::lemma_fundamental_div_mod_converse(x, n, q, r);
}

/// With no file of the list on display, a step forward leads to the first file that
/// the filter admits, and a step back to the last. Where it admits none, a step
/// leads nowhere.
pub proof fn steps_in_order_start_at_an_end(m: NavModel, i: int)
    requires
        0 <= i < m.paths.len(),
        m.filter.admits(m.paths[i]),
        m.current matches Some(p) ==> forall|j: int|
            0 <= j < m.paths.len() ==> !same_path(#[trigger] m.paths[j], p),
    ensures
        (forall|j: int| 0 <= j < i ==> !m.filter.admits(#[trigger] m.paths[j]))
            ==> m.walk_target(true, 1) == Some(m.paths[i]),
        (forall|j: int| i < j < m.paths.len() ==> !m.filter.admits(#[trigger] m.paths[j]))
            ==> m.walk_target(false, 1) == Some(m.paths[i]),
{
    let n = m.paths.len() as int;
    match m.current {
        Some(p) => {
            the_first_place_is_found(m, p);
        },
        None => {},
    }
    assert(m.walk_start(true) == -1 && m.walk_start(false) == n);
    assert forall|l: int| 1 <= l <= n implies #[trigger] m.walk_place(true, l) == l - 1 by {
        vstd::arithmetic::div_mod::lemma_small_mod((l - 1) as nat, n as nat);
    }
    assert forall|l: int| 1 <= l <= n implies #[trigger] m.walk_place(false, l) == n - l by {
        vstd::arithmetic::div_mod::lemma_small_mod((n - l) as nat, n as nat);
    }
    if forall|j: int| 0 <= j < i ==> !m.filter.admits(#[trigger] m.paths[j]) {
        assert forall|l: int| 1 <= l < i + 1 implies !m.admits(
            m.paths[#[trigger] m.walk_place(true, l)],
        ) by {
            assert(!m.filter.admits(m.paths[l - 1]));
        }
        assert(m.walk_place(true, i + 1) == i);
        walk_stops_at_the_first(m, true, 1, (i + 1) as nat);
    }
    if forall|j: int| i < j < m.paths.len() ==> !m.filter.admits(#[trigger] m.paths[j]) {
        assert forall|l: int| 1 <= l < n - i implies !m.admits(
            m.paths[#[trigger] m.walk_place(false, l)],
        ) by {
            assert(!m.filter.admits(m.paths[n - l]));
        }
        assert(m.walk_place(false, n - i) == i);
        walk_stops_at_the_first(m, false, 1, (n - i) as nat);
    }
}

/// Where the filter admits no file of the list, a step in order leads nowhere.
pub proof fn steps_in_order_may_lead_nowhere(m: NavModel, forward: bool)
    requires
        forall|j: int| 0 <= j < m.paths.len() ==> !m.filter.admits(#[trigger] m.paths[j]),
    ensures
        m.walk_target(forward, 1) is None,
{
    if m.paths.len() > 0 {
        walk_leads_to_admitted(m, forward, 1);
        match m.walk_target(forward, 1) {
            Some(p) => {
                let j = choose|j: int| 0 <= j < m.paths.len() && m.paths[j] == p;
                assert(!m.filter.admits(m.paths[j]));
            },
            None => {},
        }
    }
}

/// Chance decides among exactly these files of the list: those that the filter
/// admits and that were not seen; once it admits no such file, those that it admits
/// and that are not on display; and once it admits no such file either, the first
/// that it admits. Each counts once.
pub proof fn chance_decides_among_these(m: NavModel, i: int)
    requires
        m.paths.len() <= usize::MAX,
        0 <= i < m.paths.len(),
    ensures
        ({
            let some_unseen = exists|j: int|
                0 <= j < m.paths.len() && m.filter.admits(#[trigger] m.paths[j]) && !lists_path(
                    m.history,
                    m.paths[j],
                );
            let some_other = exists|j: int|
                0 <= j < m.paths.len() && m.filter.admits(#[trigger] m.paths[j]) && !m.displays(
                    m.paths[j],
                );
            m.candidates().contains(i as usize) <==> m.filter.admits(m.paths[i]) && (if some_unseen {
                !lists_path(m.history, m.paths[i])
            } else if some_other {
                !m.displays(m.paths[i])
            } else {
                forall|j: int| 0 <= j < i ==> !m.filter.admits(#[trigger] m.paths[j])
            })
        }),
        forall|k: int, l: int|
            0 <= k < l < m.candidates().len() ==> (#[trigger] m.candidates()[k]) < (
            #[trigger] m.candidates()[l]),
        forall|k: int|
            0 <= k < m.candidates().len() ==> (#[trigger] m.candidates()[k]) < m.paths.len(),
{
    let n = m.paths.len();
    let unseen = |i: int| m.admits(m.paths[i]) && !lists_path(m.history, m.paths[i]);
    let other = |i: int| m.admits(m.paths[i]) && !m.displays(m.paths[i]);
    let admitted = |i: int| m.admits(m.paths[i]);
    holds_exactly(n, unseen, i);
    holds_exactly(n, other, i);
    holds_exactly(n, admitted, i);
    numbers_where_in_order(n, unseen);
    numbers_where_in_order(n, other);
    numbers_where_in_order(n, admitted);
    if exists|j: int| 0 <= j < n && m.filter.admits(#[trigger] m.paths[j]) && !lists_path(
        m.history,
        m.paths[j],
    ) {
        let j = choose|j: int|
            0 <= j < n && m.filter.admits(#[trigger] m.paths[j]) && !lists_path(
                m.history,
                m.paths[j],
            );
        assert(unseen(j));
        assert(m.unseen().contains(j as usize));
    } else if m.unseen().len() > 0 {
        let j = m.unseen()[0] as int;
        assert(unseen(j));
        assert(m.filter.admits(m.paths[j]));
    }
    if exists|j: int| 0 <= j < n && m.filter.admits(#[trigger] m.paths[j]) && !m.displays(
        m.paths[j],
    ) {
        let j = choose|j: int|
            0 <= j < n && m.filter.admits(#[trigger] m.paths[j]) && !m.displays(m.paths[j]);
        assert(other(j));
        assert(m.others().contains(j as usize));
    } else if m.others().len() > 0 {
        let j = m.others()[0] as int;
        assert(other(j));
        assert(m.filter.admits(m.paths[j]));
    }
    if m.unseen().len() == 0 && m.others().len() == 0 && m.admitted().len() > 0 {
        let list = m.admitted();
        let first = list.take(1);
        assert(first[0] == list[0]);
        assert(admitted(list[0] as int));
        if first.contains(i as usize) {
            assert(list[0] == i as usize);
            assert forall|j: int| 0 <= j < i implies !m.filter.admits(#[trigger] m.paths[j]) by {
                if m.filter.admits(m.paths[j]) {
                    assert(admitted(j));
                    let k = choose|k: int| 0 <= k < list.len() && list[k] == j as usize;
                    assert(list[0] <= list[k]);
                }
            }
        } else if m.filter.admits(m.paths[i]) && forall|j: int|
            0 <= j < i ==> !m.filter.admits(#[trigger] m.paths[j]) {
            let k = choose|k: int| 0 <= k < list.len() && list[k] == i as usize;
            assert(list[0] <= list[k]);
            assert(list[0] as int == i) by {
                if list[0] < i {
                    assert(!m.filter.admits(m.paths[list[0] as int]));
                }
            }
            assert(first.contains(i as usize));
        }
    }
}

proof fn holds_exactly(n: nat, pred: spec_fn(int) -> bool, i: int)
    requires
        n <= usize::MAX,
        0 <= i < n,
    ensures
        numbers_where(n, pred).contains(i as usize) <==> pred(i),
        forall|k: int|
            0 <= k < numbers_where(n, pred).len() ==> (#[trigger] numbers_where(n, pred)[k]) < n
                && pred(numbers_where(n, pred)[k] as int),
        forall|j: int|
            0 <= j < n && #[trigger] pred(j) ==> numbers_where(n, pred).contains(j as usize),
{
    numbers_where_holds(n, pred);
    let list = numbers_where(n, pred);
    if list.contains(i as usize) {
        let k = choose|k: int| 0 <= k < list.len() && list[k] == i as usize;
        assert(pred(list[k] as int));
    }
}

/// A step at random shows one of the candidates: it is the file to load, it is on
/// display, and it is added to the history as the present place. Without a candidate
/// nothing is loaded and nothing changes.
pub proof fn a_random_step_shows_a_candidate(
    before: NavModel,
    after: NavModel,
    load: Option<String>,
)
    requires
        random_outcome(before, after, load),
        before.history.len() < usize::MAX,
    ensures
        before.candidates().len() == 0 ==> load is None && after == before,
        before.candidates().len() > 0 ==> load is Some && after.current == Some(load->0@)
            && after.history == before.history.push(load->0@) && after.history_index == Some(
            before.history.len() as usize,
        ) && after.paths == before.paths && after.filter == before.filter && after.order
            == before.order && after.scanning == before.scanning && after.scan_count
            == before.scan_count && exists|i: usize| #[trigger]
            before.candidates().contains(i) && i < before.paths.len() && before.paths[i as int]
                == load->0@,
{
    if before.candidates().len() > 0 {
        let i = choose|i: usize| #[trigger]
            before.candidates().contains(i) && i < before.paths.len() && after == before.visiting(i)
                && load->0@ == before.paths[i as int];
        assert(before.candidates().contains(i));
    }
}

/// Going on: in order, to the file that a step forward leads to, which leaves the
/// history alone; at random, to the nearest file behind in the history that the
/// filter admits, and past its end to a candidate.
pub proof fn going_on_leads_there(
    before: NavModel,
    after: NavModel,
    load: Option<String>,
    i: usize,
    k: int,
)
    requires
        next_outcome(before, after, load),
        before.history.len() <= usize::MAX,
    ensures
        after.paths == before.paths && after.filter == before.filter && after.order == before.order,
        after.scanning == before.scanning && after.scan_count == before.scan_count,
        before.order is Ordered ==> match before.walk_target(true, 1) {
            Some(path) => load is Some && load->0@ == path && after.current == Some(path)
                && after.history == before.history && after.history_index == before.history_index,
            None => load is None && after == before,
        },
        before.order is Random && before.history_index == Some(i) && i < k < before.history.len()
            && before.filter.admits(before.history[k]) && (forall|l: int|
            i < l < k ==> !before.filter.admits(#[trigger] before.history[l])) ==> load is Some
            && load->0@ == before.history[k] && after.current == Some(before.history[k])
            && after.history_index == Some(k as usize) && after.history == before.history,
        before.order is Random && before.history_index == Some(i) && (forall|l: int|
            i < l < before.history.len() ==> !before.filter.admits(#[trigger] before.history[l]))
            ==> random_outcome(before, after, load),
        before.order is Random && before.history_index is None ==> random_outcome(
            before,
            after,
            load,
        ),
{
    if before.history_index == Some(i) {
        forward_leads_to_the_nearest_behind(before, i);
        match before.forward_place() {
            Some(p) => {
                assert(before.filter.admits(before.history[p as int]));
            },
            None => {},
        }
    }
}

/// Going back: in order, to the file that a step back leads to, which leaves the
/// history alone; at random, to the nearest file before in the history that the
/// filter admits, and nowhere where there is none.
pub proof fn going_back_leads_there(
    before: NavModel,
    after: NavModel,
    load: Option<String>,
    i: usize,
    k: int,
)
    requires
        prev_outcome(before, after, load),
        before.history_index matches Some(p) ==> p <= before.history.len(),
    ensures
        after.paths == before.paths && after.filter == before.filter && after.order == before.order,
        after.scanning == before.scanning && after.scan_count == before.scan_count,
        before.order is Ordered ==> match before.walk_target(false, 1) {
            Some(path) => load is Some && load->0@ == path && after.current == Some(path)
                && after.history == before.history && after.history_index == before.history_index,
            None => load is None && after == before,
        },
        before.order is Random && before.history_index == Some(i) && 0 <= k < i
            && before.filter.admits(before.history[k]) && (forall|l: int|
            k < l < i ==> !before.filter.admits(#[trigger] before.history[l])) ==> load is Some
            && load->0@ == before.history[k] && after.current == Some(before.history[k])
            && after.history_index == Some(k as usize) && after.history == before.history,
        before.order is Random && before.history_index == Some(i) && (forall|l: int|
            0 <= l < i ==> !before.filter.admits(#[trigger] before.history[l])) ==> load is None
            && after == before,
        before.order is Random && before.history_index is None ==> load is None && after == before,
{
    if before.history_index == Some(i) {
        back_leads_to_the_nearest_before(before, i);
        match before.backward_place() {
            Some(p) => {
                assert(before.filter.admits(before.history[p as int]));
            },
            None => {},
        }
    }
}

/// A navigator is seen with every one of its parts as it is.
pub proof fn a_navigator_is_seen_as_it_is(nav: Navigator)
    ensures
        nav@.paths.len() == nav.media_paths@.len(),
        forall|i: int|
            0 <= i < nav.media_paths@.len() ==> #[trigger] nav@.paths[i] == nav.media_paths@[i]@,
        nav@.history.len() == nav.history@.len(),
        forall|i: int| 0 <= i < nav.history@.len() ==> #[trigger] nav@.history[i] == nav.history@[i]@,
        nav@.history_index == nav.history_index,
        nav.current matches Some(p) ==> nav@.current == Some(p@),
        nav.current is None ==> nav@.current is None,
        nav@.filter == nav.filter,
        nav@.order == nav.order,
        nav@.scanning == nav.scanning,
        nav@.scan_count == nav.scan_count,
{
}

/// What is kept of a navigator: a place in the history is one that the history has,
/// and as many files are counted as are listed.
pub proof fn a_navigator_keeps_count(m: NavModel)
    ensures
        m.wf() <==> m.scan_count == m.paths.len() && (m.history_index matches Some(i) ==> i
            < m.history.len()),
{
}

} // verus!
