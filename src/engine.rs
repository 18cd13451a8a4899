use crate::error::AudioError;
use crate::routing::{
    contains_id, distinct_ids, endpoint, feeding, lists_id, used_by_enabled, Route, RoutingTable,
};
use vstd::prelude::*;

verus! {

/// The enabled routes of `routes` that write to `output` and whose input
/// stream is among `active_inputs`, in their order.
pub open spec fn live_sources<G>(
    routes: Seq<Route<G>>,
    output: Seq<char>,
    active_inputs: Seq<String>,
) -> Seq<Route<G>> {
    feeding(routes, output).filter(|r: Route<G>| lists_id(active_inputs, r.input_device_id@))
}

/// `ids` lists, each once, exactly the devices that enabled routes of
/// `routes` read from (`input`) or write to.
pub open spec fn enabled_set<G>(ids: Seq<String>, routes: Seq<Route<G>>, input: bool) -> bool {
    &&& distinct_ids(ids)
    &&& forall|i: int| 0 <= i < ids.len() ==> used_by_enabled(routes, #[trigger] ids[i]@, input)
    &&& forall|k: int|
        0 <= k < routes.len() && #[trigger] routes[k].enabled ==> lists_id(
            ids,
            endpoint(routes[k], input),
        )
}

/// `ids` with `id` appended, unless it is listed already.
pub open spec fn with_id(ids: Seq<String>, id: String) -> Seq<String> {
    if lists_id(ids, id@) {
        ids
    } else {
        ids.push(id)
    }
}

/// The streams that a start has to open: one capture stream per input
/// device and one render stream per output device of the enabled routes.
pub struct StartPlan {
    pub inputs: Vec<String>,
    pub outputs: Vec<String>,
}

/// The engine's control state: its routes and gains, whether it runs, and
/// which device streams are open. Stopped until `start`; `stop` keeps the
/// routes for a later `start`.
pub struct AudioEngine<G> {
    table: RoutingTable<G>,
    running: bool,
    active_inputs: Vec<String>,
    active_outputs: Vec<String>,
}

impl<G> AudioEngine<G> {
    /// The routing table.
    pub closed spec fn table(&self) -> RoutingTable<G> {
        self.table
    }

    /// Whether the engine runs.
    pub closed spec fn spec_running(&self) -> bool {
        self.running
    }

    /// The devices whose capture stream is open.
    pub closed spec fn inputs_open(&self) -> Seq<String> {
        self.active_inputs@
    }

    /// The devices whose render stream is open.
    pub closed spec fn outputs_open(&self) -> Seq<String> {
        self.active_outputs@
    }

    pub closed spec fn wf(&self) -> bool {
        &&& self.table.wf()
        &&& distinct_ids(self.active_inputs@)
        &&& distinct_ids(self.active_outputs@)
    }
}

impl<G: Copy> AudioEngine<G> {
    /// A stopped engine with no routes and no open streams.
    pub fn new() -> (r: Self)
        ensures
            r.wf(),
            !r.spec_running(),
            r.table()@ == Seq::<Route<G>>::empty(),
            r.table().device_gains() == Map::<Seq<char>, G>::empty(),
            r.inputs_open() == Seq::<String>::empty(),
            r.outputs_open() == Seq::<String>::empty(),
    {
        AudioEngine {
            table: RoutingTable::new(),
            running: false,
            active_inputs: Vec::new(),
            active_outputs: Vec::new(),
        }
    }

    /// Adds `route`. Routes added while running reach the streams only at
    /// the next start.
    pub fn add_route(&mut self, route: Route<G>) -> (r: Result<(), AudioError>)
        requires
            old(self).wf(),
        ensures
            r is Ok,
            final(self).wf(),
            final(self).table()@ == old(self).table()@.push(route),
            final(self).table().device_gains() == old(self).table().device_gains(),
            final(self).spec_running() == old(self).spec_running(),
            final(self).inputs_open() == old(self).inputs_open(),
            final(self).outputs_open() == old(self).outputs_open(),
    {
        self.table.add(route);
        Ok(())
    }

    /// Removes every route from `input_id` to `output_id`.
    pub fn remove_route(&mut self, input_id: &str, output_id: &str) -> (r: Result<(), AudioError>)
        requires
            old(self).wf(),
        ensures
            r is Ok,
            final(self).wf(),
            final(self).table()@ == crate::routing::without_pair(
                old(self).table()@,
                input_id@,
                output_id@,
            ),
            final(self).table().device_gains() == old(self).table().device_gains(),
            final(self).spec_running() == old(self).spec_running(),
            final(self).inputs_open() == old(self).inputs_open(),
            final(self).outputs_open() == old(self).outputs_open(),
    {
        self.table.remove(input_id, output_id);
        Ok(())
    }

    /// Sets the gain of every route from `device_id` and records it as that
    /// device's gain.
    pub fn set_gain(&mut self, device_id: &str, gain_db: G) -> (r: Result<(), AudioError>)
        requires
            old(self).wf(),
        ensures
            r is Ok,
            final(self).wf(),
            final(self).table()@ == old(self).table()@.map_values(
                |x: Route<G>| crate::routing::regained(x, device_id@, gain_db),
            ),
            final(self).table().device_gains() == old(self).table().device_gains().insert(
                device_id@,
                gain_db,
            ),
            final(self).spec_running() == old(self).spec_running(),
            final(self).inputs_open() == old(self).inputs_open(),
            final(self).outputs_open() == old(self).outputs_open(),
    {
        self.table.set_gain(device_id, gain_db);
        Ok(())
    }

    /// Enters the running state and says which streams to open: every
    /// device of an enabled route, once. Streams opened before are
    /// forgotten; each stream opened now is reported with `stream_opened`.
    pub fn start(&mut self) -> (plan: StartPlan)
        requires
            old(self).wf(),
        ensures
            final(self).wf(),
            final(self).spec_running(),
            final(self).table() == old(self).table(),
            final(self).inputs_open() == Seq::<String>::empty(),
            final(self).outputs_open() == Seq::<String>::empty(),
            enabled_set(plan.inputs@, old(self).table()@, true),
            enabled_set(plan.outputs@, old(self).table()@, false),
    {
        self.running = true;
        self.active_inputs = Vec::new();
        self.active_outputs = Vec::new();
        let inputs = self.table.enabled_devices(true);
        let outputs = self.table.enabled_devices(false);
        StartPlan { inputs, outputs }
    }

    /// Records that the capture (`is_input`) or render stream of
    /// `device_id` is open.
    pub fn stream_opened(&mut self, device_id: &String, is_input: bool)
        requires
            old(self).wf(),
        ensures
            final(self).wf(),
            final(self).table() == old(self).table(),
            final(self).spec_running() == old(self).spec_running(),
            is_input ==> final(self).inputs_open() == with_id(old(self).inputs_open(), *device_id),
            is_input ==> final(self).outputs_open() == old(self).outputs_open(),
            !is_input ==> final(self).inputs_open() == old(self).inputs_open(),
            !is_input ==> final(self).outputs_open() == with_id(old(self).outputs_open(), *device_id),
    {
        if is_input {
            if !contains_id(&self.active_inputs, device_id) {
                let ghost before = self.active_inputs@;
                self.active_inputs.push(device_id.clone());
                assert forall|i: int, j: int|
                    0 <= i < j < self.active_inputs@.len() implies #[trigger] self.active_inputs@[i]@
                    != #[trigger] self.active_inputs@[j]@ by {
                    if j == before.len() {
                        assert(before[i]@ != device_id@);
                    }
                }
            }
        } else {
            if !contains_id(&self.active_outputs, device_id) {
                let ghost before = self.active_outputs@;
                self.active_outputs.push(device_id.clone());
                assert forall|i: int, j: int|
                    0 <= i < j < self.active_outputs@.len() implies #[trigger] self.active_outputs@[i]@
                    != #[trigger] self.active_outputs@[j]@ by {
                    if j == before.len() {
                        assert(before[i]@ != device_id@);
                    }
                }
            }
        }
    }

    /// The routes that the render stream of `output_id` mixes: the enabled
    /// routes to it whose input stream is open, with their gains as they
    /// stand now.
    pub fn output_sources(&self, output_id: &str) -> (r: Vec<Route<G>>)
        ensures
            r@ == live_sources(self.table()@, output_id@, self.inputs_open()),
    {
        let candidates = self.table.routes_for_output(output_id);
        let ghost cand = candidates@;
        let mut picked: Vec<Route<G>> = Vec::new();
        let n = candidates.len();
        let mut i: usize = 0;
        while i < n
            invariant
                n == cand.len(),
                candidates@ == cand,
                cand == feeding(self.table()@, output_id@),
                i <= n,
                picked@ == cand.take(i as int).filter(
                    |r: Route<G>| lists_id(self.active_inputs@, r.input_device_id@),
                ),
            decreases n - i,
        {
            let route = &candidates[i];
            let ghost prefix = cand.take(i + 1);
            assert(prefix.drop_last() =~= cand.take(i as int));
            assert(prefix.last() == *route);
            let open = contains_id(&self.active_inputs, &route.input_device_id);
            if open {
                picked.push(route.duplicate());
            }
            proof {
                reveal(Seq::filter);
            }
            i += 1;
        }
        assert(cand.take(n as int) =~= cand);
        picked
    }

    /// Leaves the running state. The routes and the record of open streams
    /// are kept; the streams are to be paused by whoever opened them.
    pub fn stop(&mut self) -> (r: Result<(), AudioError>)
        requires
            old(self).wf(),
        ensures
            r is Ok,
            final(self).wf(),
            !final(self).spec_running(),
            final(self).table() == old(self).table(),
            final(self).inputs_open() == old(self).inputs_open(),
            final(self).outputs_open() == old(self).outputs_open(),
    {
        self.running = false;
        Ok(())
    }

    /// Whether the engine runs.
    pub fn is_running(&self) -> (r: bool)
        ensures
            r == self.spec_running(),
    {
        self.running
    }

    /// The routing table.
    pub fn routing(&self) -> (r: &RoutingTable<G>)
        ensures
            *r == self.table(),
    {
        &self.table
    }
}

} // verus!
