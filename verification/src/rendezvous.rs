//! The rendezvous: transports for a number of conductors, joined into a full mesh and wrapped into
//! nodes, step by step.
use crate::mesh;
use crate::names;
use crate::rns;
use crate::rns::{DrawLog, Opening};
use crate::transport;
use rns_transport::identity::PrivateIdentity;
use rns_transport::transport::Transport;
use std::sync::Arc;
use tokio::runtime::Handle;
use tokio::sync::Mutex;
use tokio::task::JoinHandle;
use vstd::prelude::*;

verus! {

/// How long the interfaces get to settle between the wiring and the wrapping.
pub const SETTLE_MILLIS: u64 = 50;

/// What has to be done next for a rendezvous.
#[derive(Clone, Copy, Debug, PartialEq, Eq, Structural)]
pub enum Step {
    /// Join the transports of conductors `a` and `b` by a bridge.
    Bridge { a: usize, b: usize },
    /// Let the interfaces settle.
    Settle { millis: u64 },
    /// Wrap the transport of conductor `index` into a node.
    Wrap { index: usize },
    /// Nothing: the rendezvous is complete.
    Ready,
}

/// How far a rendezvous has come.
#[verifier::ext_equal]
pub struct Progress<N> {
    /// The number of conductors.
    pub size: nat,
    /// The transport and the identity of each conductor, as long as they are needed.
    pub transports: Seq<(Arc<Mutex<Transport>>, PrivateIdentity)>,
    /// The random draws that the identities come from.
    pub draws: DrawLog,
    /// The tasks of the bridges, two for each bridge, in the order of wiring.
    pub bridge_handles: Seq<JoinHandle<()>>,
    /// Whether the interfaces have settled.
    pub settled: bool,
    /// The nodes, in the order of the conductors.
    pub nodes: Seq<Arc<N>>,
}

impl<N> Progress<N> {
    /// How many bridges are wired.
    pub open spec fn bridges(self) -> int {
        self.bridge_handles.len() as int / 2
    }

    /// Every node is there.
    pub open spec fn ready(self) -> bool {
        self.nodes.len() == self.size
    }

    /// The transport of each conductor goes by the conductor's name, under the identity that is
    /// kept with it.
    pub open spec fn named(self) -> bool {
        forall|i: int|
            0 <= i < self.transports.len() ==> rns::shared_opening(
                *(#[trigger] self.transports[i]).0,
            ).settings == transport::loopback_settings(
                names::conductor_name_spec(i as nat),
                self.transports[i].1,
            )
    }

    /// There was a draw for each conductor, and the identity of each is what its own draw gave.
    pub open spec fn drawn(self) -> bool {
        &&& self.draws@.len() == self.size
        &&& forall|i: int|
            0 <= i < self.transports.len() ==> (#[trigger] self.transports[i]).1 == self.draws@[i]
    }

    /// What holds of every rendezvous: there is a conductor; the bridges come in the order of the
    /// mesh, none beyond it; nothing settles before the last bridge, nothing is wrapped before that;
    /// the transports are kept until the last of them is wrapped.
    pub open spec fn wf(self) -> bool {
        &&& self.size >= 1
        &&& self.bridge_handles.len() % 2 == 0
        &&& self.bridges() <= mesh::mesh(self.size).len()
        &&& self.settled ==> self.bridges() == mesh::mesh(self.size).len()
        &&& self.nodes.len() > 0 ==> self.settled
        &&& self.nodes.len() <= self.size
        &&& self.transports.len() == if self.ready() {
            0
        } else {
            self.size
        }
        &&& self.named()
        &&& self.drawn()
    }

    /// What has to be done next: first the bridges of the mesh, then the pause, then the nodes.
    pub open spec fn next_step(self) -> Step {
        let links = mesh::mesh(self.size);
        if self.bridges() < links.len() {
            let link = links[self.bridges()];
            Step::Bridge { a: link.0 as usize, b: link.1 as usize }
        } else if !self.settled {
            Step::Settle { millis: SETTLE_MILLIS }
        } else if !self.ready() {
            Step::Wrap { index: self.nodes.len() as usize }
        } else {
            Step::Ready
        }
    }

    /// One more bridge is wired, and these two tasks run it.
    pub open spec fn after_bridge(self, forth: JoinHandle<()>, back: JoinHandle<()>) -> Self {
        Progress { bridge_handles: self.bridge_handles.push(forth).push(back), ..self }
    }

    /// The interfaces have settled.
    pub open spec fn after_settle(self) -> Self {
        Progress { settled: true, ..self }
    }

    /// One more transport is wrapped. With the last of them the transports are let go: from then on
    /// the nodes hold them.
    pub open spec fn after_wrap(self, node: Arc<N>) -> Self {
        Progress {
            nodes: self.nodes.push(node),
            transports: if self.nodes.len() + 1 == self.size {
                Seq::empty()
            } else {
                self.transports
            },
            ..self
        }
    }

    /// How many steps are left until the rendezvous is complete.
    pub open spec fn steps_left(self) -> int {
        (mesh::mesh(self.size).len() - self.bridges()) + (if self.settled {
            0int
        } else {
            1int
        }) + (self.size - self.nodes.len())
    }
}

/// A number of conductors' nodes in one process, whose transports are joined into a full mesh.
///
/// `new` opens the transports. Everything after that waits for something outside, so it is left to
/// the caller: `next_step` says what to do, and `bridged`, `settled` and `wrapped` take note that it
/// is done, until the step is `Ready`.
pub struct SweetReticulumRendezvous<N> {
    size: usize,
    transports: Vec<(Arc<Mutex<Transport>>, PrivateIdentity)>,
    row: usize,
    column: usize,
    draws: DrawLog,
    settled: bool,
    nodes: Vec<Arc<N>>,
    bridge_handles: Vec<JoinHandle<()>>,
}

impl<N> View for SweetReticulumRendezvous<N> {
    type V = Progress<N>;

    closed spec fn view(&self) -> Progress<N> {
        Progress {
            size: self.size as nat,
            transports: self.transports@,
            draws: self.draws,
            bridge_handles: self.bridge_handles@,
            settled: self.settled,
            nodes: self.nodes@,
        }
    }
}

impl<N> SweetReticulumRendezvous<N> {
    /// The rendezvous is as far as its progress says, and `(row, column)` is the first link that is
    /// not wired yet.
    pub closed spec fn wf(self) -> bool {
        &&& self@.wf()
        &&& self.row < self.column
        &&& self.row + 1 < self.size ==> self.column < self.size
        &&& mesh::mesh(self.size as nat).skip(self@.bridges()) == mesh::mesh_from(
            self.row as nat,
            self.column as nat,
            self.size as nat,
        )
    }

    /// Begins a rendezvous of `n` conductors: opens a transport for each of them, under a name and
    /// an identity of its own, with its tasks on `runtime`. No two of them are joined yet.
    pub fn new(n: usize, runtime: &Handle) -> (rendezvous: Self)
        requires
            n >= 1,
        ensures
            rendezvous.wf(),
            rendezvous@.size == n,
            rendezvous@.transports.len() == n,
            rendezvous@.named(),
            forall|i: int|
                0 <= i < n ==> rns::shared_opening(
                    *(#[trigger] rendezvous@.transports[i]).0,
                ).runtime == *runtime,
            rendezvous@.draws@.len() == n,
            forall|i: int|
                0 <= i < n ==> (#[trigger] rendezvous@.transports[i]).1 == rendezvous@.draws@[i],
            forall|i: int|
                0 <= i < n ==> {
                    let settings = rns::shared_opening(
                        *(#[trigger] rendezvous@.transports[i]).0,
                    ).settings;
                    &&& settings.name == "sweet-reticulum-"@ + names::decimal(i as nat)
                    &&& settings.identity == rendezvous@.transports[i].1
                    &&& settings.broadcast
                    &&& !settings.retransmit
                    &&& settings.link_proof_timeout_secs == 5
                    &&& settings.link_idle_timeout_secs == 60
                },
            rendezvous@.bridge_handles == Seq::<JoinHandle<()>>::empty(),
            !rendezvous@.settled,
            rendezvous@.nodes == Seq::<Arc<N>>::empty(),
    {
        let mut transports: Vec<(Arc<Mutex<Transport>>, PrivateIdentity)> = Vec::new();
        let mut draws = DrawLog::new();
        let mut i: usize = 0;
        while i < n
            invariant
                i <= n,
                transports@.len() == i,
                draws@.len() == i,
                forall|k: int|
                    0 <= k < transports@.len() ==> (#[trigger] transports@[k]).1 == draws@[k],
                forall|k: int|
                    0 <= k < transports@.len() ==> rns::shared_opening(
                        *(#[trigger] transports@[k]).0,
                    ) == (Opening {
                        settings: transport::loopback_settings(
                            names::conductor_name_spec(k as nat),
                            transports@[k].1,
                        ),
                        runtime: *runtime,
                    }),
            decreases n - i,
        {
            let name: String = names::conductor_name(i);
            transports.push(transport::draw_rns_transport(name.as_str(), runtime, &mut draws));
            i += 1;
        }
        let rendezvous = SweetReticulumRendezvous {
            size: n,
            transports,
            row: 0,
            column: 1,
            draws,
            settled: false,
            nodes: Vec::new(),
            bridge_handles: Vec::new(),
        };
        assert(mesh::mesh(n as nat).skip(0) == mesh::mesh(n as nat));
        rendezvous
    }

    /// What has to be done next.
    pub fn next_step(&self) -> (step: Step)
        requires
            self.wf(),
        ensures
            step == self@.next_step(),
            match step {
                Step::Bridge { a, b } => {
                    &&& a < b < self@.size
                    &&& self@.bridge_handles.len() == a * (2 * self@.size - a - 1) + 2 * (b - a - 1)
                },
                Step::Settle { millis } => {
                    &&& millis == 50
                    &&& self@.bridge_handles.len() == self@.size * (self@.size - 1)
                    &&& !self@.settled
                },
                Step::Wrap { index } => self@.settled && index == self@.nodes.len() < self@.size,
                Step::Ready => self@.nodes.len() == self@.size,
            },
    {
        proof {
            lemma_progress_is_sound(*self);
            lemma_step_that_is_due(self@);
        }
        let ghost links = mesh::mesh(self.size as nat);
        let ghost rest = mesh::mesh_from(self.row as nat, self.column as nat, self.size as nat);
        if self.row + 1 < self.size {
            proof {
                assert(rest.len() > 0 && rest[0] == (self.row as nat, self.column as nat));
                assert(links.skip(self@.bridges()).len() == links.len() - self@.bridges());
                assert(links.skip(self@.bridges())[0] == links[self@.bridges()]);
            }
            Step::Bridge { a: self.row, b: self.column }
        } else {
            assert(links.skip(self@.bridges()).len() == 0);
            if !self.settled {
                Step::Settle { millis: SETTLE_MILLIS }
            } else if self.nodes.len() < self.size {
                Step::Wrap { index: self.nodes.len() }
            } else {
                Step::Ready
            }
        }
    }

    /// The transport of conductor `i`, as long as the rendezvous is not complete.
    pub fn transport(&self, i: usize) -> (shared: Arc<Mutex<Transport>>)
        requires
            i < self@.transports.len(),
        ensures
            shared == self@.transports[i as int].0,
    {
        self.transports[i].0.clone()
    }

    /// The identity of conductor `i`, as long as the rendezvous is not complete.
    pub fn identity(&self, i: usize) -> (identity: &PrivateIdentity)
        requires
            i < self@.transports.len(),
        ensures
            *identity == self@.transports[i as int].1,
    {
        &self.transports[i].1
    }

    /// The log of the random draws that the identities come from.
    pub fn draws(&self) -> (log: &DrawLog)
        ensures
            *log == self@.draws,
    {
        &self.draws
    }

    /// Takes note that the bridge which was due is wired, and keeps the tasks that run it.
    pub fn bridged(&mut self, forth: JoinHandle<()>, back: JoinHandle<()>)
        requires
            old(self).wf(),
            old(self)@.next_step() is Bridge,
        ensures
            final(self).wf(),
            final(self)@ == old(self)@.after_bridge(forth, back),
            final(self)@.bridge_handles == old(self)@.bridge_handles.push(forth).push(back),
            final(self)@.size == old(self)@.size,
            final(self)@.transports == old(self)@.transports,
            final(self)@.draws == old(self)@.draws,
            final(self)@.settled == old(self)@.settled,
            final(self)@.nodes == old(self)@.nodes,
    {
        let ghost links = mesh::mesh(self.size as nat);
        let ghost wired = self@.bridges();
        let ghost rest = mesh::mesh_from(self.row as nat, self.column as nat, self.size as nat);
        proof {
            assert(links.skip(wired).len() > 0);
            assert(self.row + 1 < self.size);
            assert(links.skip(wired + 1) == links.skip(wired).skip(1));
            assert(rest.skip(1) == mesh::mesh_from(
                self.row as nat,
                (self.column + 1) as nat,
                self.size as nat,
            ));
        }
        self.bridge_handles.push(forth);
        self.bridge_handles.push(back);
        if self.column + 1 < self.size {
            self.column = self.column + 1;
        } else {
            self.row = self.row + 1;
            self.column = self.row + 1;
        }
        assert(self@.bridges() == wired + 1);
    }

    /// Takes note that the interfaces have settled.
    pub fn settled(&mut self)
        requires
            old(self).wf(),
            old(self)@.next_step() is Settle,
        ensures
            final(self).wf(),
            final(self)@ == old(self)@.after_settle(),
            final(self)@.settled,
            final(self)@.size == old(self)@.size,
            final(self)@.transports == old(self)@.transports,
            final(self)@.draws == old(self)@.draws,
            final(self)@.bridge_handles == old(self)@.bridge_handles,
            final(self)@.nodes == old(self)@.nodes,
    {
        self.settled = true;
    }

    /// Takes note that the transport which was due is wrapped into `node`, and keeps the node.
    pub fn wrapped(&mut self, node: Arc<N>)
        requires
            old(self).wf(),
            old(self)@.next_step() is Wrap,
        ensures
            final(self).wf(),
            final(self)@ == old(self)@.after_wrap(node),
            final(self)@.nodes == old(self)@.nodes.push(node),
            final(self)@.transports == if final(self)@.nodes.len() < final(self)@.size {
                old(self)@.transports
            } else {
                Seq::empty()
            },
            final(self)@.size == old(self)@.size,
            final(self)@.draws == old(self)@.draws,
            final(self)@.bridge_handles == old(self)@.bridge_handles,
            final(self)@.settled == old(self)@.settled,
    {
        self.nodes.push(node);
        if self.nodes.len() == self.size {
            self.transports = Vec::new();
        }
    }

    /// The node of conductor `i`.
    pub fn node(&self, i: usize) -> (node: Arc<N>)
        requires
            i < self@.nodes.len(),
        ensures
            node == self@.nodes[i as int],
    {
        self.nodes[i].clone()
    }
}

/// Whatever is said of sound progress holds of every rendezvous, at every point.
pub proof fn lemma_progress_is_sound<N>(rendezvous: SweetReticulumRendezvous<N>)
    requires
        rendezvous.wf(),
    ensures
        rendezvous@.wf(),
        rendezvous@.size <= usize::MAX,
{
}

/// The whole course of a rendezvous of `n` conductors: every link of the mesh is bridged, in the
/// order of the mesh; then the interfaces settle; then the transports are wrapped, in the order of
/// the conductors.
pub open spec fn course(n: nat) -> Seq<Step> {
    mesh::mesh(n).map_values(
        |link: (nat, nat)| Step::Bridge { a: link.0 as usize, b: link.1 as usize },
    ) + seq![Step::Settle { millis: SETTLE_MILLIS }] + Seq::new(
        n,
        |i: int| Step::Wrap { index: i as usize },
    )
}

/// Every rendezvous keeps to the course: the step that is due is the one that the course has at
/// this point, and `Ready` comes at its end.
pub proof fn lemma_rendezvous_keeps_to_its_course<N>(progress: Progress<N>)
    requires
        progress.wf(),
    ensures
        0 <= progress.steps_left() <= course(progress.size).len(),
        progress.next_step() == if progress.steps_left() > 0 {
            course(progress.size)[course(progress.size).len() - progress.steps_left()]
        } else {
            Step::Ready
        },
{
}

/// Each step that is done leaves one step less, and leads to a rendezvous as sound as before.
pub proof fn lemma_every_step_makes_progress<N>(
    progress: Progress<N>,
    forth: JoinHandle<()>,
    back: JoinHandle<()>,
    node: Arc<N>,
)
    requires
        progress.wf(),
    ensures
        match progress.next_step() {
            Step::Bridge { .. } => {
                let after = progress.after_bridge(forth, back);
                after.wf() && after.steps_left() == progress.steps_left() - 1
            },
            Step::Settle { .. } => {
                let after = progress.after_settle();
                after.wf() && after.steps_left() == progress.steps_left() - 1
            },
            Step::Wrap { .. } => {
                let after = progress.after_wrap(node);
                after.wf() && after.steps_left() == progress.steps_left() - 1
            },
            Step::Ready => progress.steps_left() == 0,
        },
{
}

/// A rendezvous of `n` conductors is complete after `n * (n - 1) / 2 + n + 1` steps.
pub proof fn lemma_steps_of_a_fresh_rendezvous<N>(progress: Progress<N>)
    requires
        progress.wf(),
        progress.bridge_handles.len() == 0,
        !progress.settled,
        progress.nodes.len() == 0,
    ensures
        2 * progress.steps_left() == progress.size * (progress.size - 1) + 2 * progress.size + 2,
{
    mesh::lemma_mesh_len(progress.size);
}

/// A complete rendezvous has a node for each conductor and two tasks for each pair of them, so
/// `n * (n - 1)` in all, and lets go of the transports.
pub proof fn lemma_ready_means_complete<N>(progress: Progress<N>)
    requires
        progress.wf(),
        progress.next_step() is Ready,
    ensures
        progress.nodes.len() == progress.size,
        progress.bridge_handles.len() == progress.size * (progress.size - 1),
        progress.transports.len() == 0,
{
    mesh::lemma_mesh_len(progress.size);
}

/// A step only ever asks for conductors of the rendezvous, whose transports are still at hand, and
/// a bridge never joins a conductor to itself.
pub proof fn lemma_steps_ask_for_conductors<N>(progress: Progress<N>)
    requires
        progress.wf(),
        progress.size <= usize::MAX,
    ensures
        match progress.next_step() {
            Step::Bridge { a, b } => a < b < progress.size && b < progress.transports.len(),
            Step::Wrap { index } => index < progress.size && index < progress.transports.len(),
            _ => true,
        },
{
    mesh::lemma_mesh_is_full(progress.size);
    let links = mesh::mesh(progress.size);
    if progress.bridges() < links.len() {
        assert(links.contains(links[progress.bridges()]));
    }
}

/// The node that answers the request to wrap transport `index` is the node of conductor `index`
/// from then on, and every node and task that was there before stays where it was, whichever step
/// comes next.
pub proof fn lemma_nodes_and_tasks_stay<N>(
    progress: Progress<N>,
    forth: JoinHandle<()>,
    back: JoinHandle<()>,
    node: Arc<N>,
)
    requires
        progress.wf(),
        progress.size <= usize::MAX,
    ensures
        progress.next_step() matches Step::Wrap { index } ==> progress.after_wrap(
            node,
        ).nodes[index as int] == node,
        forall|i: int|
            0 <= i < progress.nodes.len() ==> #[trigger] progress.nodes[i] == progress.after_wrap(
                node,
            ).nodes[i] && progress.nodes[i] == progress.after_settle().nodes[i]
                && progress.nodes[i] == progress.after_bridge(forth, back).nodes[i],
        progress.after_bridge(forth, back).bridge_handles[2 * progress.bridges()] == forth,
        progress.after_bridge(forth, back).bridge_handles[2 * progress.bridges() + 1] == back,
        forall|i: int|
            0 <= i < progress.bridge_handles.len() ==> #[trigger] progress.bridge_handles[i]
                == progress.after_bridge(forth, back).bridge_handles[i]
                && progress.bridge_handles[i] == progress.after_settle().bridge_handles[i]
                && progress.bridge_handles[i] == progress.after_wrap(node).bridge_handles[i],
{
}

/// The transports of two conductors never go by the same name.
pub proof fn lemma_transports_are_named_apart<N>(progress: Progress<N>, i: int, j: int)
    requires
        progress.wf(),
        0 <= i < progress.transports.len(),
        0 <= j < progress.transports.len(),
        i != j,
    ensures
        rns::shared_opening(*progress.transports[i].0).settings.name != rns::shared_opening(
            *progress.transports[j].0,
        ).settings.name,
{
    names::lemma_conductor_names_distinct(i as nat, j as nat);
}

impl<N> Progress<N> {
    /// The step that is due is done: a bridge by the next of `tasks`, a node as the next of `nodes`.
    pub open spec fn after_step(
        self,
        tasks: Seq<(JoinHandle<()>, JoinHandle<()>)>,
        nodes: Seq<Arc<N>>,
    ) -> Self {
        match self.next_step() {
            Step::Bridge { .. } => self.after_bridge(
                tasks[self.bridges()].0,
                tasks[self.bridges()].1,
            ),
            Step::Settle { .. } => self.after_settle(),
            Step::Wrap { .. } => self.after_wrap(nodes[self.nodes.len() as int]),
            Step::Ready => self,
        }
    }

    /// `count` steps, one after the other, are done.
    pub open spec fn after_steps(
        self,
        tasks: Seq<(JoinHandle<()>, JoinHandle<()>)>,
        nodes: Seq<Arc<N>>,
        count: nat,
    ) -> Self
        decreases count,
    {
        if count == 0 {
            self
        } else {
            self.after_steps(tasks, nodes, (count - 1) as nat).after_step(tasks, nodes)
        }
    }

    /// The tasks and the nodes so far are those that were handed in, in that order.
    pub open spec fn holds(
        self,
        tasks: Seq<(JoinHandle<()>, JoinHandle<()>)>,
        nodes: Seq<Arc<N>>,
    ) -> bool {
        &&& forall|i: int|
            0 <= i < self.bridges() ==> self.bridge_handles[2 * i] == (#[trigger] tasks[i]).0
                && self.bridge_handles[2 * i + 1] == tasks[i].1
        &&& forall|i: int| 0 <= i < self.nodes.len() ==> #[trigger] self.nodes[i] == nodes[i]
    }
}

proof fn lemma_after_steps<N>(
    progress: Progress<N>,
    tasks: Seq<(JoinHandle<()>, JoinHandle<()>)>,
    nodes: Seq<Arc<N>>,
    count: nat,
)
    requires
        progress.wf(),
        progress.holds(tasks, nodes),
        count <= progress.steps_left(),
    ensures
        progress.after_steps(tasks, nodes, count).wf(),
        progress.after_steps(tasks, nodes, count).size == progress.size,
        progress.after_steps(tasks, nodes, count).holds(tasks, nodes),
        progress.after_steps(tasks, nodes, count).steps_left() == progress.steps_left() - count,
    decreases count,
{
    if count > 0 {
        lemma_after_steps(progress, tasks, nodes, (count - 1) as nat);
        let earlier = progress.after_steps(tasks, nodes, (count - 1) as nat);
        let later = progress.after_steps(tasks, nodes, count);
        let k = earlier.bridges();
        assert(later == earlier.after_step(tasks, nodes));
        lemma_every_step_makes_progress(
            earlier,
            tasks[k].0,
            tasks[k].1,
            nodes[earlier.nodes.len() as int],
        );
        assert forall|i: int| 0 <= i < later.bridges() implies later.bridge_handles[2 * i]
            == (#[trigger] tasks[i]).0 && later.bridge_handles[2 * i + 1] == tasks[i].1 by {}
    }
}

/// A fresh rendezvous that is carried through to the end is complete, and the node of conductor `i`
/// is the one that the transport of conductor `i` was wrapped into.
pub proof fn lemma_rendezvous_carried_through<N>(
    progress: Progress<N>,
    tasks: Seq<(JoinHandle<()>, JoinHandle<()>)>,
    nodes: Seq<Arc<N>>,
)
    requires
        progress.wf(),
        progress.bridge_handles.len() == 0,
        !progress.settled,
        progress.nodes.len() == 0,
        tasks.len() == mesh::mesh(progress.size).len(),
        nodes.len() == progress.size,
    ensures
        ({
            let done = progress.after_steps(tasks, nodes, progress.steps_left() as nat);
            &&& done.next_step() is Ready
            &&& done.nodes == nodes
            &&& done.bridge_handles.len() == 2 * tasks.len()
            &&& done.holds(tasks, nodes)
        }),
{
    lemma_after_steps(progress, tasks, nodes, progress.steps_left() as nat);
    let done = progress.after_steps(tasks, nodes, progress.steps_left() as nat);
    assert(done.nodes =~= nodes);
}

/// Each conductor has a node of its own. Where every transport is wrapped into a node, whatever
/// `wraps` takes that to mean, and no two of these nodes are the same, then no two nodes of the
/// complete rendezvous are the same, node `i` wraps the transport of conductor `i`, and any two of
/// these transports are different ones, named apart, each under the identity that was drawn for it.
pub proof fn lemma_each_conductor_has_its_own_node<N>(
    progress: Progress<N>,
    tasks: Seq<(JoinHandle<()>, JoinHandle<()>)>,
    nodes: Seq<Arc<N>>,
    wraps: spec_fn(Arc<N>, (Arc<Mutex<Transport>>, PrivateIdentity)) -> bool,
    i: int,
    j: int,
)
    requires
        progress.wf(),
        progress.bridge_handles.len() == 0,
        !progress.settled,
        progress.nodes.len() == 0,
        tasks.len() == mesh::mesh(progress.size).len(),
        nodes.len() == progress.size,
        nodes.no_duplicates(),
        forall|k: int|
            0 <= k < nodes.len() ==> wraps(#[trigger] nodes[k], progress.transports[k]),
        0 <= i < progress.size,
        0 <= j < progress.size,
        i != j,
    ensures
        ({
            let done = progress.after_steps(tasks, nodes, progress.steps_left() as nat);
            let one = progress.transports[i];
            let other = progress.transports[j];
            &&& done.next_step() is Ready
            &&& done.nodes.len() == progress.size
            &&& done.nodes.no_duplicates()
            &&& done.nodes[i] != done.nodes[j]
            &&& wraps(done.nodes[i], one)
            &&& wraps(done.nodes[j], other)
            &&& one.0 != other.0
            &&& rns::shared_opening(*one.0).settings.name != rns::shared_opening(
                *other.0,
            ).settings.name
            &&& rns::shared_opening(*one.0).settings.identity == one.1
            &&& rns::shared_opening(*other.0).settings.identity == other.1
        }),
{
    lemma_rendezvous_carried_through(progress, tasks, nodes);
    lemma_transports_are_named_apart(progress, i, j);
}

/// The pause lasts fifty milliseconds, whatever the number of conductors.
pub proof fn lemma_pause_is_the_same_for_all<N>(progress: Progress<N>)
    ensures
        progress.next_step() matches Step::Settle { millis } ==> millis == 50,
{
}

/// How the step that is due and what is done so far go together. A bridge between `a` and `b` is
/// due when two tasks run for each pair that comes before `(a, b)`, and for no other. The pause is
/// due when two tasks run for each pair of conductors. A wrap is due for the first conductor without
/// a node, after the pause. Nothing is due when each conductor has a node.
pub proof fn lemma_step_that_is_due<N>(progress: Progress<N>)
    requires
        progress.wf(),
        progress.size <= usize::MAX,
    ensures
        match progress.next_step() {
            Step::Bridge { a, b } => {
                &&& a < b < progress.size
                &&& progress.bridge_handles.len() == a * (2 * progress.size - a - 1) + 2 * (b - a
                    - 1)
                &&& !progress.settled
                &&& progress.nodes.len() == 0
            },
            Step::Settle { millis } => {
                &&& millis == 50
                &&& progress.bridge_handles.len() == progress.size * (progress.size - 1)
                &&& !progress.settled
                &&& progress.nodes.len() == 0
            },
            Step::Wrap { index } => {
                &&& progress.bridge_handles.len() == progress.size * (progress.size - 1)
                &&& progress.settled
                &&& index == progress.nodes.len() < progress.size
            },
            Step::Ready => {
                &&& progress.bridge_handles.len() == progress.size * (progress.size - 1)
                &&& progress.settled
                &&& progress.nodes.len() == progress.size
            },
        },
{
    mesh::lemma_mesh_len(progress.size);
    lemma_steps_ask_for_conductors(progress);
    let links = mesh::mesh(progress.size);
    let k = progress.bridges();
    if k < links.len() {
        mesh::lemma_mesh_is_full(progress.size);
        assert(links.contains(links[k]));
        mesh::lemma_place_of_a_link(progress.size, links[k].0, links[k].1, k);
    }
}

/// Each pair of conductors is due to be bridged at one point and at no other: the bridge between
/// `a` and `b` is the step if and only if two tasks run for each pair that comes before `(a, b)`.
pub proof fn lemma_each_pair_is_due_at_one_point<N>(progress: Progress<N>, a: usize, b: usize)
    requires
        progress.wf(),
        progress.size <= usize::MAX,
        a < b < progress.size,
    ensures
        progress.next_step() == (Step::Bridge { a, b }) <==> progress.bridge_handles.len() == a * (2
            * progress.size - a - 1) + 2 * (b - a - 1),
{
    lemma_step_that_is_due(progress);
    mesh::lemma_mesh_is_full(progress.size);
    let links = mesh::mesh(progress.size);
    let k = progress.bridges();
    assert(links.contains((a as nat, b as nat)));
    let place = choose|l: int| 0 <= l < links.len() && links[l] == (a as nat, b as nat);
    mesh::lemma_place_of_a_link(progress.size, a as nat, b as nat, place);
    if progress.bridge_handles.len() == a * (2 * progress.size - a - 1) + 2 * (b - a - 1) {
        assert(k == place);
    }
}

/// In the course of a rendezvous each pair of conductors is bridged exactly once, whichever two
/// they are: the bridge between `a` and `b` is due after as many steps as there are pairs before
/// `(a, b)`, and never again.
pub proof fn lemma_each_pair_is_bridged_once<N>(
    progress: Progress<N>,
    tasks: Seq<(JoinHandle<()>, JoinHandle<()>)>,
    nodes: Seq<Arc<N>>,
    a: usize,
    b: usize,
    count: nat,
)
    requires
        progress.wf(),
        progress.size <= usize::MAX,
        progress.bridge_handles.len() == 0,
        !progress.settled,
        progress.nodes.len() == 0,
        a < b < progress.size,
        count <= progress.steps_left(),
    ensures
        progress.after_steps(tasks, nodes, count).next_step() == (Step::Bridge { a, b }) <==> 2
            * count == a * (2 * progress.size - a - 1) + 2 * (b - a - 1),
        a * (2 * progress.size - a - 1) + 2 * (b - a - 1) < 2 * progress.steps_left(),
        (a * (2 * progress.size - a - 1) + 2 * (b - a - 1)) % 2 == 0,
{
    lemma_after_steps(progress, tasks, nodes, count);
    let now = progress.after_steps(tasks, nodes, count);
    lemma_each_pair_is_due_at_one_point(now, a, b);
    lemma_step_that_is_due(now);
    let links = mesh::mesh(progress.size);
    mesh::lemma_mesh_is_full(progress.size);
    assert(links.contains((a as nat, b as nat)));
    let place = choose|l: int| 0 <= l < links.len() && links[l] == (a as nat, b as nat);
    mesh::lemma_place_of_a_link(progress.size, a as nat, b as nat, place);
    mesh::lemma_mesh_len(progress.size);
}

/// What each step that is done changes, and that it changes nothing else: a bridge adds its two
/// tasks at the end; the pause is noted; a wrap adds its node at the end, and the last of them lets
/// go of the transports.
pub proof fn lemma_what_a_step_changes<N>(
    progress: Progress<N>,
    forth: JoinHandle<()>,
    back: JoinHandle<()>,
    node: Arc<N>,
)
    ensures
        ({
            let bridged = progress.after_bridge(forth, back);
            &&& bridged.bridge_handles == progress.bridge_handles + seq![forth, back]
            &&& bridged.size == progress.size
            &&& bridged.transports == progress.transports
            &&& bridged.draws == progress.draws
            &&& bridged.settled == progress.settled
            &&& bridged.nodes == progress.nodes
        }),
        ({
            let settled = progress.after_settle();
            &&& settled.settled
            &&& settled.size == progress.size
            &&& settled.transports == progress.transports
            &&& settled.draws == progress.draws
            &&& settled.bridge_handles == progress.bridge_handles
            &&& settled.nodes == progress.nodes
        }),
        ({
            let wrapped = progress.after_wrap(node);
            &&& wrapped.nodes == progress.nodes + seq![node]
            &&& progress.nodes.len() + 1 == progress.size ==> wrapped.transports.len() == 0
            &&& progress.nodes.len() + 1 != progress.size ==> wrapped.transports
                == progress.transports
            &&& wrapped.size == progress.size
            &&& wrapped.draws == progress.draws
            &&& wrapped.bridge_handles == progress.bridge_handles
            &&& wrapped.settled == progress.settled
        }),
{
    assert(progress.after_bridge(forth, back).bridge_handles =~= progress.bridge_handles + seq![
        forth,
        back,
    ]);
    assert(progress.after_wrap(node).nodes =~= progress.nodes + seq![node]);
}

/// No two conductors share a draw: there are as many draws as conductors, and the transport of each
/// conductor runs under what the draw of that conductor gave, conductor `i` the `i`-th draw and
/// conductor `j` the `j`-th.
pub proof fn lemma_identities_are_drawn_one_by_one<N>(progress: Progress<N>, i: int, j: int)
    requires
        progress.wf(),
        0 <= i < j < progress.transports.len(),
    ensures
        progress.draws@.len() == progress.size,
        progress.transports[i].1 == progress.draws@[i],
        progress.transports[j].1 == progress.draws@[j],
        rns::shared_opening(*progress.transports[i].0).settings.identity == progress.draws@[i],
        rns::shared_opening(*progress.transports[j].0).settings.identity == progress.draws@[j],
{
}

/// The transport of conductor `i` is opened as the mesh wants it: under the name that ends in `i`,
/// broadcasting, passing nothing on, with five seconds for the proof of a link and sixty for an idle
/// link.
pub proof fn lemma_transports_are_set_up_for_the_mesh<N>(progress: Progress<N>, i: int)
    requires
        progress.wf(),
        0 <= i < progress.transports.len(),
    ensures
        ({
            let settings = rns::shared_opening(*progress.transports[i].0).settings;
            &&& settings.name.take(16) == "sweet-reticulum-"@
            &&& names::read_decimal(settings.name.skip(16)) == i
            &&& settings.identity == progress.transports[i].1
            &&& settings.broadcast
            &&& !settings.retransmit
            &&& settings.link_proof_timeout_secs == 5
            &&& settings.link_idle_timeout_secs == 60
        }),
{
    names::lemma_conductor_name_reads_back(i as nat);
}

} // verus!
