use vstd::prelude::*;

verus! {

/// A gained connection from one input device to one output device. The gain
/// is carried, in dB, as the caller's own sample-level number type.
#[derive(Debug, Clone)]
pub struct Route<G> {
    pub input_device_id: String,
    pub output_device_id: String,
    pub gain_db: G,
    pub enabled: bool,
}

impl<G: Copy> Route<G> {
    /// A copy of this route.
    pub fn duplicate(&self) -> (r: Route<G>)
        ensures
            r == *self,
    {
        Route {
            input_device_id: self.input_device_id.clone(),
            output_device_id: self.output_device_id.clone(),
            gain_db: self.gain_db,
            enabled: self.enabled,
        }
    }
}

/// The device that `r` reads from (`input`) or writes to.
pub open spec fn endpoint<G>(r: Route<G>, input: bool) -> Seq<char> {
    if input {
        r.input_device_id@
    } else {
        r.output_device_id@
    }
}

/// `r` connects exactly the input `input` to the output `output`.
pub open spec fn connects<G>(r: Route<G>, input: Seq<char>, output: Seq<char>) -> bool {
    r.input_device_id@ == input && r.output_device_id@ == output
}

/// `r` after setting the gain of every route from input `device` to `gain`.
pub open spec fn regained<G>(r: Route<G>, device: Seq<char>, gain: G) -> Route<G> {
    if r.input_device_id@ == device {
        Route {
            input_device_id: r.input_device_id,
            output_device_id: r.output_device_id,
            gain_db: gain,
            enabled: r.enabled,
        }
    } else {
        r
    }
}

/// `routes` without those from `input` to `output`, in their order.
pub open spec fn without_pair<G>(routes: Seq<Route<G>>, input: Seq<char>, output: Seq<char>) -> Seq<
    Route<G>,
> {
    routes.filter(|r: Route<G>| !connects(r, input, output))
}

/// The enabled routes of `routes` that write to `output`, in their order.
pub open spec fn feeding<G>(routes: Seq<Route<G>>, output: Seq<char>) -> Seq<Route<G>> {
    routes.filter(|r: Route<G>| r.enabled && r.output_device_id@ == output)
}

/// Some enabled route of `routes` reads from (`input`) or writes to `id`.
pub open spec fn used_by_enabled<G>(routes: Seq<Route<G>>, id: Seq<char>, input: bool) -> bool {
    exists|k: int| 0 <= k < routes.len() && routes[k].enabled && #[trigger] endpoint(routes[k], input) == id
}

/// No identifier occurs twice in `ids`.
pub open spec fn distinct_ids(ids: Seq<String>) -> bool {
    forall|i: int, j: int| 0 <= i < j < ids.len() ==> #[trigger] ids[i]@ != #[trigger] ids[j]@
}

/// `id` occurs in `ids`.
pub open spec fn lists_id(ids: Seq<String>, id: Seq<char>) -> bool {
    exists|j: int| 0 <= j < ids.len() && #[trigger] ids[j]@ == id
}

/// Whether `id` occurs in `ids`.
pub fn contains_id(ids: &Vec<String>, id: &String) -> (r: bool)
    ensures
        r == lists_id(ids@, id@),
{
    let mut j: usize = 0;
    while j < ids.len()
        invariant
            j <= ids@.len(),
            forall|l: int| 0 <= l < j ==> #[trigger] ids@[l]@ != id@,
        decreases ids@.len() - j,
    {
        if ids[j] == *id {
            return true;
        }
        j += 1;
    }
    false
}

/// Some entry of `entries` has the key `k`.
pub open spec fn has_key<G>(entries: Seq<(String, G)>, k: Seq<char>) -> bool {
    exists|i: int| 0 <= i < entries.len() && #[trigger] entries[i].0@ == k
}

/// The entries' keys are pairwise distinct.
pub open spec fn keys_distinct<G>(entries: Seq<(String, G)>) -> bool {
    forall|i: int, j: int|
        0 <= i < j < entries.len() ==> #[trigger] entries[i].0@ != #[trigger] entries[j].0@
}

/// The map from device identifier to gain that `entries` holds.
pub open spec fn gains_map<G>(entries: Seq<(String, G)>) -> Map<Seq<char>, G> {
    Map::new(
        |k: Seq<char>| has_key(entries, k),
        |k: Seq<char>| entries[choose|i: int| 0 <= i < entries.len() && #[trigger] entries[i].0@ == k].1,
    )
}

proof fn lemma_same_key<G>(entries: Seq<(String, G)>, i: int, j: int)
    requires
        keys_distinct(entries),
        0 <= i < entries.len(),
        0 <= j < entries.len(),
        entries[i].0@ == entries[j].0@,
    ensures
        i == j,
{
    if i < j {
        assert(entries[i].0@ != entries[j].0@);
    } else if j < i {
        assert(entries[j].0@ != entries[i].0@);
    }
}

proof fn lemma_gains_update<G>(entries: Seq<(String, G)>, i: int, id: String, gain: G)
    requires
        keys_distinct(entries),
        0 <= i < entries.len(),
        entries[i].0@ == id@,
    ensures
        keys_distinct(entries.update(i, (id, gain))),
        gains_map(entries.update(i, (id, gain))) == gains_map(entries).insert(id@, gain),
{
    let after = entries.update(i, (id, gain));
    assert forall|k: Seq<char>| has_key(after, k) == (has_key(entries, k) || k == id@) by {
        if has_key(entries, k) {
            let j = choose|j: int| 0 <= j < entries.len() && #[trigger] entries[j].0@ == k;
            assert(after[j].0@ == k);
        }
        if has_key(after, k) {
            let j = choose|j: int| 0 <= j < after.len() && #[trigger] after[j].0@ == k;
            assert(entries[j].0@ == k);
        }
        if k == id@ {
            assert(after[i].0@ == k);
        }
    }
    assert forall|k: Seq<char>| #[trigger] has_key(after, k) && k != id@ implies gains_map(after)[k]
        == gains_map(entries)[k] by {
        let j = choose|j: int| 0 <= j < after.len() && #[trigger] after[j].0@ == k;
        let l = choose|j: int| 0 <= j < entries.len() && #[trigger] entries[j].0@ == k;
        assert(j != i);
        assert(entries[j].0@ == k);
        assert(j == l);
    }
    assert(has_key(after, id@)) by {
        assert(after[i].0@ == id@);
    }
    let j = choose|j: int| 0 <= j < after.len() && #[trigger] after[j].0@ == id@;
    assert(j == i);
    assert(gains_map(after) =~= gains_map(entries).insert(id@, gain));
}

proof fn lemma_gains_push<G>(entries: Seq<(String, G)>, id: String, gain: G)
    requires
        keys_distinct(entries),
        !has_key(entries, id@),
    ensures
        keys_distinct(entries.push((id, gain))),
        gains_map(entries.push((id, gain))) == gains_map(entries).insert(id@, gain),
{
    let after = entries.push((id, gain));
    let n = entries.len() as int;
    assert forall|k: Seq<char>| has_key(after, k) == (has_key(entries, k) || k == id@) by {
        if has_key(entries, k) {
            let j = choose|j: int| 0 <= j < entries.len() && #[trigger] entries[j].0@ == k;
            assert(after[j].0@ == k);
        }
        if has_key(after, k) {
            let j = choose|j: int| 0 <= j < after.len() && #[trigger] after[j].0@ == k;
            if j < n {
                assert(entries[j].0@ == k);
            }
        }
        if k == id@ {
            assert(after[n].0@ == k);
        }
    }
    assert forall|i: int, j: int| 0 <= i < j < after.len() implies #[trigger] after[i].0@
        != #[trigger] after[j].0@ by {
        if j == n {
            assert(entries[i].0@ != id@);
        }
    }
    assert forall|k: Seq<char>| #[trigger] has_key(after, k) && k != id@ implies gains_map(after)[k]
        == gains_map(entries)[k] by {
        let j = choose|j: int| 0 <= j < after.len() && #[trigger] after[j].0@ == k;
        let l = choose|j: int| 0 <= j < entries.len() && #[trigger] entries[j].0@ == k;
        assert(j != n);
        assert(entries[j].0@ == k);
        assert(j == l);
    }
    assert(has_key(after, id@)) by {
        assert(after[n].0@ == id@);
    }
    let j = choose|j: int| 0 <= j < after.len() && #[trigger] after[j].0@ == id@;
    assert(j == n);
    assert(gains_map(after) =~= gains_map(entries).insert(id@, gain));
}

/// The configured routes, in the order they were added, and the gain last
/// set for each input device.
pub struct RoutingTable<G> {
    routes: Vec<Route<G>>,
    gains: Vec<(String, G)>,
}

impl<G> View for RoutingTable<G> {
    type V = Seq<Route<G>>;

    /// The routes, in the order they were added.
    closed spec fn view(&self) -> Seq<Route<G>> {
        self.routes@
    }
}

impl<G> RoutingTable<G> {
    /// The gain last set for each device.
    pub closed spec fn device_gains(&self) -> Map<Seq<char>, G> {
        gains_map(self.gains@)
    }

    pub closed spec fn wf(&self) -> bool {
        keys_distinct(self.gains@)
    }
}

impl<G: Copy> RoutingTable<G> {
    /// A table with no routes and no gains.
    pub fn new() -> (r: Self)
        ensures
            r.wf(),
            r@ == Seq::<Route<G>>::empty(),
            r.device_gains() == Map::<Seq<char>, G>::empty(),
    {
        let r = RoutingTable { routes: Vec::new(), gains: Vec::new() };
        assert(r.device_gains() =~= Map::<Seq<char>, G>::empty());
        r
    }

    /// Appends `route`; routes with the same pair of devices may coexist.
    pub fn add(&mut self, route: Route<G>)
        requires
            old(self).wf(),
        ensures
            final(self).wf(),
            final(self)@ == old(self)@.push(route),
            final(self).device_gains() == old(self).device_gains(),
    {
        self.routes.push(route);
    }

    /// Deletes every route from `input_id` to `output_id`, keeping the
    /// order of the others.
    pub fn remove(&mut self, input_id: &str, output_id: &str)
        requires
            old(self).wf(),
        ensures
            final(self).wf(),
            final(self)@ == without_pair(old(self)@, input_id@, output_id@),
            final(self).device_gains() == old(self).device_gains(),
    {
        let input = input_id.to_owned();
        let output = output_id.to_owned();
        let mut kept: Vec<Route<G>> = Vec::new();
        let mut i: usize = 0;
        while i < self.routes.len()
            invariant
                input@ == input_id@,
                output@ == output_id@,
                i <= self.routes@.len(),
                self.routes@ == old(self).routes@,
                kept@ == without_pair(self.routes@.take(i as int), input_id@, output_id@),
            decreases self.routes@.len() - i,
        {
            let route = &self.routes[i];
            let ghost prefix = self.routes@.take(i + 1);
            assert(prefix.drop_last() =~= self.routes@.take(i as int));
            assert(prefix.last() == *route);
            if !(route.input_device_id == input && route.output_device_id == output) {
                kept.push(route.duplicate());
            }
            proof {
                reveal(Seq::filter);
            }
            assert(without_pair(prefix, input_id@, output_id@) == (if connects(*route, input_id@, output_id@) {
                without_pair(prefix.drop_last(), input_id@, output_id@)
            } else {
                without_pair(prefix.drop_last(), input_id@, output_id@).push(*route)
            }));
            assert(kept@ == without_pair(prefix, input_id@, output_id@));
            i += 1;
        }
        assert(self.routes@.take(i as int) =~= self.routes@);
        self.routes = kept;
    }

    /// Sets the gain of every route whose input is `device_id`, and records
    /// it as that device's gain.
    pub fn set_gain(&mut self, device_id: &str, gain_db: G)
        requires
            old(self).wf(),
        ensures
            final(self).wf(),
            final(self)@ == old(self)@.map_values(
                |r: Route<G>| regained(r, device_id@, gain_db),
            ),
            final(self).device_gains() == old(self).device_gains().insert(device_id@, gain_db),
    {
        let id = device_id.to_owned();
        let n = self.routes.len();
        let mut i: usize = 0;
        while i < n
            invariant
                id@ == device_id@,
                n == self.routes@.len(),
                n == old(self).routes@.len(),
                i <= n,
                self.gains@ == old(self).gains@,
                keys_distinct(self.gains@),
                forall|j: int|
                    0 <= j < i ==> #[trigger] self.routes@[j] == regained(
                        old(self).routes@[j],
                        device_id@,
                        gain_db,
                    ),
                forall|j: int| i <= j < n ==> #[trigger] self.routes@[j] == old(self).routes@[j],
            decreases n - i,
        {
            if self.routes[i].input_device_id == id {
                let mut route = self.routes[i].duplicate();
                route.gain_db = gain_db;
                self.routes.set(i, route);
            }
            i += 1;
        }
        assert(self.routes@ =~= old(self).routes@.map_values(
            |r: Route<G>| regained(r, device_id@, gain_db),
        ));
        let m = self.gains.len();
        let mut k: usize = 0;
        while k < m
            invariant
                id@ == device_id@,
                m == self.gains@.len(),
                k <= m,
                self.gains@ == old(self).gains@,
                keys_distinct(self.gains@),
                self.routes@ == old(self).routes@.map_values(
                    |r: Route<G>| regained(r, device_id@, gain_db),
                ),
                forall|j: int| 0 <= j < k ==> #[trigger] self.gains@[j].0@ != device_id@,
            decreases m - k,
        {
            if self.gains[k].0 == id {
                proof {
                    lemma_gains_update(self.gains@, k as int, id, gain_db);
                }
                self.gains.set(k, (id, gain_db));
                return;
            }
            k += 1;
        }
        proof {
            lemma_gains_push(self.gains@, id, gain_db);
        }
        self.gains.push((id, gain_db));
    }

    /// The distinct devices that enabled routes read from (`input`) or
    /// write to, each once, in the order of their first route.
    pub fn enabled_devices(&self, input: bool) -> (r: Vec<String>)
        ensures
            distinct_ids(r@),
            forall|i: int| 0 <= i < r@.len() ==> used_by_enabled(self@, #[trigger] r@[i]@, input),
            forall|k: int|
                0 <= k < self@.len() && #[trigger] self@[k].enabled ==> lists_id(
                    r@,
                    endpoint(self@[k], input),
                ),
    {
        let mut ids: Vec<String> = Vec::new();
        let n = self.routes.len();
        let mut i: usize = 0;
        while i < n
            invariant
                n == self@.len(),
                i <= n,
                distinct_ids(ids@),
                forall|j: int| 0 <= j < ids@.len() ==> used_by_enabled(self@, #[trigger] ids@[j]@, input),
                forall|k: int|
                    0 <= k < i && #[trigger] self@[k].enabled ==> lists_id(
                        ids@,
                        endpoint(self@[k], input),
                    ),
            decreases n - i,
        {
            let route = &self.routes[i];
            if route.enabled {
                let id = if input {
                    &route.input_device_id
                } else {
                    &route.output_device_id
                };
                assert(id@ == endpoint(self@[i as int], input));
                if !contains_id(&ids, id) {
                    let ghost before = ids@;
                    ids.push(id.clone());
                    assert forall|k: int|
                        0 <= k <= i && #[trigger] self@[k].enabled implies lists_id(
                        ids@,
                        endpoint(self@[k], input),
                    ) by {
                        if k < i {
                            let j = choose|j: int| 0 <= j < before.len() && #[trigger] before[j]@ == endpoint(self@[k], input);
                            assert(ids@[j]@ == endpoint(self@[k], input));
                        } else {
                            assert(ids@[before.len() as int]@ == endpoint(self@[k], input));
                        }
                    }
                }
            }
            i += 1;
        }
        ids
    }

    /// A snapshot of the enabled routes that write to `output_id`, in their
    /// order.
    pub fn routes_for_output(&self, output_id: &str) -> (r: Vec<Route<G>>)
        ensures
            r@ == feeding(self@, output_id@),
    {
        let output = output_id.to_owned();
        let mut picked: Vec<Route<G>> = Vec::new();
        let n = self.routes.len();
        let mut i: usize = 0;
        while i < n
            invariant
                output@ == output_id@,
                n == self@.len(),
                i <= n,
                picked@ == feeding(self@.take(i as int), output_id@),
            decreases n - i,
        {
            let route = &self.routes[i];
            let ghost prefix = self@.take(i + 1);
            assert(prefix.drop_last() =~= self@.take(i as int));
            assert(prefix.last() == *route);
            if route.enabled && route.output_device_id == output {
                picked.push(route.duplicate());
            }
            proof {
                reveal(Seq::filter);
            }
            assert(feeding(prefix, output_id@) == (if route.enabled && route.output_device_id@
                == output_id@ {
                feeding(prefix.drop_last(), output_id@).push(*route)
            } else {
                feeding(prefix.drop_last(), output_id@)
            }));
            i += 1;
        }
        assert(self@.take(n as int) =~= self@);
        picked
    }

    /// The routes, in the order they were added.
    pub fn routes(&self) -> (r: &Vec<Route<G>>)
        ensures
            r@ == self@,
    {
        &self.routes
    }

    /// The recorded device gains as `(device identifier, gain)` pairs, each
    /// device once.
    pub fn gain_entries(&self) -> (r: &Vec<(String, G)>)
        requires
            self.wf(),
        ensures
            keys_distinct(r@),
            gains_map(r@) == self.device_gains(),
    {
        &self.gains
    }

    /// The gain last set for `device_id`, if any.
    pub fn device_gain(&self, device_id: &str) -> (r: Option<G>)
        requires
            self.wf(),
        ensures
            r == (if self.device_gains().contains_key(device_id@) {
                Some(self.device_gains()[device_id@])
            } else {
                None
            }),
    {
        let id = device_id.to_owned();
        let mut k: usize = 0;
        while k < self.gains.len()
            invariant
                id@ == device_id@,
                k <= self.gains@.len(),
                keys_distinct(self.gains@),
                forall|j: int| 0 <= j < k ==> #[trigger] self.gains@[j].0@ != device_id@,
            decreases self.gains@.len() - k,
        {
            if self.gains[k].0 == id {
                assert(has_key(self.gains@, device_id@));
                let ghost c = choose|j: int|
                    0 <= j < self.gains@.len() && #[trigger] self.gains@[j].0@ == device_id@;
                proof {
                    lemma_same_key(self.gains@, c, k as int);
                }
                return Some(self.gains[k].1);
            }
            k += 1;
        }
        None
    }
}

} // verus!
