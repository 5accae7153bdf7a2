//! Routing of a framework's labels to hosted sessions.

use vstd::prelude::*;
use vstd::string::StringExecFns;

use crate::domain::error::{report, ErrorCategory, ErrorCode, ErrorReport, Recoverability};
use crate::domain::text_map::TextMap;
use crate::domain::types::{group_identities, Generation, SessionId};
use crate::macos::host::{
    activity_rejection, host_attached, host_registered, host_replaced, host_unregistered,
    HostedSession, MacosHost,
};

verus! {

broadcast use group_identities;

/// The report of an adapter failure.
pub open spec fn adapter_report(code: ErrorCode, operation: &'static str) -> ErrorReport {
    report(ErrorCategory::Lifecycle, code, Recoverability::ReplaceEndpoint, operation)
}

pub(crate) fn adapter_error(code: ErrorCode, operation: &'static str) -> (created: ErrorReport)
    ensures
        created == adapter_report(code, operation),
{
    ErrorReport::new(ErrorCategory::Lifecycle, code, Recoverability::ReplaceEndpoint, operation)
}

/// The generation of a session that a label stands for.
#[derive(Clone, Copy, PartialEq, Eq, Structural)]
pub struct RoutedSession {
    /// Logical session.
    pub session: SessionId,
    /// Active generation.
    pub generation: Generation,
}

/// Names of the operations that a framework's registry reports.
#[derive(Clone, Copy)]
pub struct RegistryOperations {
    /// An event of a label that is not registered.
    pub unknown: &'static str,
    /// An event of a generation that is not active.
    pub stale: &'static str,
    /// A label that is registered already.
    pub duplicate: &'static str,
}

/// Registered labels and hosted sessions.
#[verifier::ext_equal]
pub struct RegistryView {
    /// What each label stands for.
    pub routes: Map<Seq<char>, RoutedSession>,
    /// Hosted sessions.
    pub hosted: Map<u128, HostedSession>,
}

/// Why an event of a label is not routed, if it is not.
pub open spec fn route_rejection(
    view: RegistryView,
    operations: RegistryOperations,
    label: Seq<char>,
    generation: Generation,
) -> Option<ErrorReport> {
    if !view.routes.dom().contains(label) {
        Some(adapter_report(ErrorCode::Closed, operations.unknown))
    } else if view.routes[label].generation != generation {
        Some(adapter_report(ErrorCode::StaleGeneration, operations.stale))
    } else {
        None
    }
}

/// What becomes of a registration.
pub open spec fn label_registered(
    view: RegistryView,
    operations: RegistryOperations,
    label: Seq<char>,
    session: SessionId,
    generation: Generation,
) -> (Result<(), ErrorReport>, RegistryView) {
    if view.routes.dom().contains(label) {
        (Err(adapter_report(ErrorCode::InvalidStateTransition, operations.duplicate)), view)
    } else {
        let (registered, hosted) = host_registered(view.hosted, session, generation);
        (
            registered,
            RegistryView {
                routes: if registered is Ok {
                    view.routes.insert(label, RoutedSession { session, generation })
                } else {
                    view.routes
                },
                hosted,
            },
        )
    }
}

/// What becomes of an attached renderer.
pub open spec fn label_attached(
    view: RegistryView,
    operations: RegistryOperations,
    label: Seq<char>,
    generation: Generation,
) -> (Result<(), ErrorReport>, RegistryView) {
    match route_rejection(view, operations, label, generation) {
        Some(error) => (Err(error), view),
        None => {
            let (attached, hosted) = host_attached(
                view.hosted,
                view.routes[label].session,
                generation,
            );
            (attached, RegistryView { routes: view.routes, hosted })
        },
    }
}

/// What becomes of a replacement.
pub open spec fn label_replaced(
    view: RegistryView,
    operations: RegistryOperations,
    label: Seq<char>,
    generation: Generation,
) -> (Result<Generation, ErrorReport>, RegistryView) {
    match route_rejection(view, operations, label, generation) {
        Some(error) => (Err(error), view),
        None => {
            let session = view.routes[label].session;
            let (replaced, hosted) = host_replaced(view.hosted, session, generation);
            (
                replaced,
                RegistryView {
                    routes: match replaced {
                        Ok(next) => view.routes.insert(
                            label,
                            RoutedSession { session, generation: next },
                        ),
                        Err(_) => view.routes,
                    },
                    hosted,
                },
            )
        },
    }
}

/// What becomes of a removal.
pub open spec fn label_removed(
    view: RegistryView,
    operations: RegistryOperations,
    label: Seq<char>,
    generation: Generation,
) -> (Result<(), ErrorReport>, RegistryView) {
    match route_rejection(view, operations, label, generation) {
        Some(error) => (Err(error), view),
        None => {
            let (removed, hosted) = host_unregistered(
                view.hosted,
                view.routes[label].session,
                generation,
            );
            (
                removed,
                RegistryView {
                    routes: if removed is Ok {
                        view.routes.remove(label)
                    } else {
                        view.routes
                    },
                    hosted,
                },
            )
        },
    }
}

/// Whether every label stands for the active generation of a hosted session, and no two labels for
/// one session.
pub open spec fn is_consistent(view: RegistryView) -> bool {
    &&& forall|label: Seq<char>| #[trigger]
        view.routes.dom().contains(label) ==> activity_rejection(
            view.hosted,
            view.routes[label].session,
            view.routes[label].generation,
        ) is None
    &&& forall|left: Seq<char>, right: Seq<char>| #[trigger]
        view.routes.dom().contains(left) && #[trigger] view.routes.dom().contains(right) && left
            != right ==> view.routes[left].session != view.routes[right].session
}

/// Labels keep standing for active generations, whatever happens to the registry.
pub proof fn law_labels_stand_for_active_generations(
    view: RegistryView,
    operations: RegistryOperations,
    label: Seq<char>,
    session: SessionId,
    generation: Generation,
)
    requires
        is_consistent(view),
    ensures
        is_consistent(label_registered(view, operations, label, session, generation).1),
        is_consistent(label_attached(view, operations, label, generation).1),
        is_consistent(label_replaced(view, operations, label, generation).1),
        is_consistent(label_removed(view, operations, label, generation).1),
{
    if !view.routes.dom().contains(label) {
        assert forall|other: Seq<char>| view.routes.dom().contains(
            other,
        ) && !view.hosted.dom().contains(session@) implies (#[trigger] view.routes[other]).session
            != session by {
            assert(view.routes.dom().contains(other));
        }
    } else {
        let routed = view.routes[label].session;
        assert forall|other: Seq<char>|
            view.routes.dom().contains(other) && other != label implies (
        #[trigger] view.routes[other]).session@ != routed@ by {
            assert(view.routes.dom().contains(other) && view.routes.dom().contains(label));
            assert(view.routes[other].session != routed);
        }
    }
}

/// After a replacement the label's old generation is stale, and the new one is routed.
pub proof fn law_replaced_labels_reject_the_old_generation(
    view: RegistryView,
    operations: RegistryOperations,
    label: Seq<char>,
    generation: Generation,
)
    requires
        label_replaced(view, operations, label, generation).0 is Ok,
    ensures
        ({
            let (replaced, after) = label_replaced(view, operations, label, generation);
            &&& replaced->Ok_0 != generation
            &&& route_rejection(after, operations, label, generation) == Some(
                adapter_report(ErrorCode::StaleGeneration, operations.stale),
            )
            &&& route_rejection(after, operations, label, replaced->Ok_0) is None
        }),
{
    let next = Generation::of((generation@ + 1) as u64);
    assert(next@ == generation@ + 1);
}

/// Host of a framework's webviews, each under its label.
pub struct HostRegistry {
    host: MacosHost,
    routes: TextMap<RoutedSession>,
    callback_failure: Option<ErrorReport>,
}

impl View for HostRegistry {
    type V = RegistryView;

    closed spec fn view(&self) -> RegistryView {
        RegistryView { routes: self.routes@, hosted: self.host@ }
    }
}

impl HostRegistry {
    /// The control-plane host.
    pub closed spec fn spec_host(self) -> MacosHost {
        self.host
    }

    /// The failure that a callback left behind.
    pub closed spec fn left_failure(self) -> Option<ErrorReport> {
        self.callback_failure
    }

    /// Whether two registries plan their webviews alike.
    pub open spec fn keeps_plan(self, other: Self) -> bool {
        self.spec_host().spec_plan() == other.spec_host().spec_plan()
    }

    /// Creates a registry without labels.
    pub fn new(host: MacosHost) -> (registry: Self)
        ensures
            registry@.routes == Map::<Seq<char>, RoutedSession>::empty(),
            registry@.hosted == host@,
            registry.spec_host() == host,
            registry.left_failure() is None,
    {
        HostRegistry { host, routes: TextMap::new(), callback_failure: None }
    }

    /// Control-plane host.
    pub fn host(&self) -> (host: &MacosHost)
        ensures
            *host == self.spec_host(),
    {
        &self.host
    }

    /// Maps a label to one active session generation.
    ///
    /// Duplicate labels and duplicate session identities are rejected.
    pub fn register(
        &mut self,
        operations: RegistryOperations,
        label: String,
        session: SessionId,
        generation: Generation,
    ) -> (
        registered: Result<(), ErrorReport>)
        ensures
            final(self).keeps_plan(*old(self)),
            final(self).left_failure() == old(self).left_failure(),
            (registered, final(self)@) == label_registered(
                old(self)@,
                operations,
                label@,
                session,
                generation,
            ),
    {
        if self.routes.get(label.as_str()).is_some() {
            return Err(
                adapter_error(ErrorCode::InvalidStateTransition, operations.duplicate),
            );
        }
        self.host.register(session, generation)?;
        self.routes.insert(label, RoutedSession { session, generation });
        Ok(())
    }

    /// What a label stands for.
    ///
    /// `Closed` is returned for a label that is not registered.
    pub fn current_identity(
        &self,
        operations: RegistryOperations,
        label: &str,
    ) -> (identity: Result<RoutedSession, ErrorReport>)
        ensures
            identity == if self@.routes.dom().contains(label@) {
                Ok::<RoutedSession, ErrorReport>(self@.routes[label@])
            } else {
                Err(adapter_report(ErrorCode::Closed, operations.unknown))
            },
    {
        match self.routes.get(label) {
            Some(routed) => Ok(*routed),
            None => Err(adapter_error(ErrorCode::Closed, operations.unknown)),
        }
    }

    /// What a label stands for, where that is a given generation.
    ///
    /// `Closed` is returned for a label that is not registered, and `StaleGeneration` for another
    /// generation.
    pub fn identity(
        &self,
        operations: RegistryOperations,
        label: &str,
        generation: Generation,
    ) -> (identity: Result<
        RoutedSession,
        ErrorReport,
    >)
        ensures
            identity == match route_rejection(
                self@,
                operations,
                label@,
                generation,
            ) {
                Some(error) => Err::<RoutedSession, ErrorReport>(error),
                None => Ok(self@.routes[label@]),
            },
    {
        let identity = self.current_identity(operations, label)?;
        if identity.generation != generation {
            return Err(adapter_error(ErrorCode::StaleGeneration, operations.stale));
        }
        Ok(identity)
    }

    /// Routes the attachment of a label's renderer.
    ///
    /// Unknown, stale, and duplicate attachment events are rejected.
    pub fn renderer_attached(
        &mut self,
        operations: RegistryOperations,
        label: &str,
        generation: Generation,
    ) -> (attached: Result<
        (),
        ErrorReport,
    >)
        ensures
            final(self).keeps_plan(*old(self)),
            final(self).left_failure() == old(self).left_failure(),
            (attached, final(self)@) == label_attached(
                old(self)@,
                operations,
                label@,
                generation,
            ),
    {
        let identity = self.identity(operations, label, generation)?;
        self.host.renderer_attached(identity.session, identity.generation)
    }

    /// Replaces the generation of a label.
    ///
    /// Unknown and stale events are rejected.
    pub fn replace(
        &mut self,
        operations: RegistryOperations,
        label: &str,
        generation: Generation,
    ) -> (replaced: Result<
        Generation,
        ErrorReport,
    >)
        ensures
            final(self).keeps_plan(*old(self)),
            final(self).left_failure() == old(self).left_failure(),
            (replaced, final(self)@) == label_replaced(
                old(self)@,
                operations,
                label@,
                generation,
            ),
    {
        let identity = self.identity(operations, label, generation)?;
        let replacement = self.host.replace_renderer(identity.session, identity.generation)?;
        self.routes.insert(
            String::from_str(label),
            RoutedSession { session: identity.session, generation: replacement },
        );
        Ok(replacement)
    }

    /// Replaces whatever generation a label stands for.
    ///
    /// Unknown labels are rejected.
    pub fn replace_current(
        &mut self,
        operations: RegistryOperations,
        label: &str,
    ) -> (replaced: Result<Generation, ErrorReport>)
        ensures
            final(self).keeps_plan(*old(self)),
            final(self).left_failure() == old(self).left_failure(),
            (replaced, final(self)@) == label_replaced(
                old(self)@,
                operations,
                label@,
                old(self)@.routes[label@].generation,
            ),
    {
        let identity = self.current_identity(operations, label)?;
        self.replace(operations, label, identity.generation)
    }

    /// Removes a label and tears its session down.
    ///
    /// Unknown and stale events are rejected.
    pub fn remove(
        &mut self,
        operations: RegistryOperations,
        label: &str,
        generation: Generation,
    ) -> (removed: Result<
        (),
        ErrorReport,
    >)
        ensures
            final(self).keeps_plan(*old(self)),
            final(self).left_failure() == old(self).left_failure(),
            (removed, final(self)@) == label_removed(
                old(self)@,
                operations,
                label@,
                generation,
            ),
    {
        let identity = self.identity(operations, label, generation)?;
        self.host.unregister(identity.session, identity.generation)?;
        let _route = self.routes.remove(label);
        Ok(())
    }

    /// Removes whatever generation a label stands for.
    ///
    /// Unknown labels are rejected.
    pub fn remove_current(
        &mut self,
        operations: RegistryOperations,
        label: &str,
    ) -> (removed: Result<(), ErrorReport>)
        ensures
            final(self).keeps_plan(*old(self)),
            final(self).left_failure() == old(self).left_failure(),
            (removed, final(self)@) == label_removed(
                old(self)@,
                operations,
                label@,
                old(self)@.routes[label@].generation,
            ),
    {
        let identity = self.current_identity(operations, label)?;
        self.remove(operations, label, identity.generation)
    }

    /// The generation that a label stands for.
    pub fn generation(&self, label: &str) -> (generation: Option<Generation>)
        ensures
            generation == if self@.routes.dom().contains(label@) {
                Some(self@.routes[label@].generation)
            } else {
                None
            },
    {
        match self.routes.get(label) {
            Some(routed) => Some(routed.generation),
            None => None,
        }
    }

    /// The registered labels, each of them once.
    pub fn labels(&self) -> (labels: Vec<String>)
        ensures
            forall|index: int|
                0 <= index < labels@.len() ==> self@.routes.dom().contains(
                    (#[trigger] labels@[index])@,
                ),
            forall|label: Seq<char>| #[trigger]
                self@.routes.dom().contains(label) ==> exists|index: int|
                    0 <= index < labels@.len() && (#[trigger] labels@[index])@ == label,
            forall|left: int, right: int|
                0 <= left < right < labels@.len() ==> (#[trigger] labels@[left])@ != (
                #[trigger] labels@[right])@,
    {
        self.routes.keys()
    }

    /// Leaves the failure of a callback that cannot return one.
    pub fn record_callback_failure(&mut self, error: ErrorReport)
        ensures
            final(self).keeps_plan(*old(self)),
            final(self)@ == old(self)@,
            final(self).left_failure() == Some(error),
    {
        self.callback_failure = Some(error);
    }

    /// Takes the last failure that a callback left.
    pub fn take_callback_failure(&mut self) -> (failure: Option<ErrorReport>)
        ensures
            final(self).keeps_plan(*old(self)),
            final(self)@ == old(self)@,
            final(self).left_failure() is None,
            failure == old(self).left_failure(),
    {
        let failure = self.callback_failure;
        self.callback_failure = None;
        failure
    }
}

/// What is done with one label leaves the routes of every other one.
pub proof fn law_labels_do_not_touch_each_other(
    view: RegistryView,
    operations: RegistryOperations,
    label: Seq<char>,
    session: SessionId,
    generation: Generation,
    other: Seq<char>,
)
    requires
        other != label,
    ensures
        ({
            let registered = label_registered(view, operations, label, session, generation).1;
            let attached = label_attached(view, operations, label, generation).1;
            let replaced = label_replaced(view, operations, label, generation).1;
            let removed = label_removed(view, operations, label, generation).1;
            let known = view.routes.dom().contains(other);
            &&& registered.routes.dom().contains(other) == known && registered.routes[other]
                == view.routes[other]
            &&& attached.routes == view.routes
            &&& replaced.routes.dom().contains(other) == known && replaced.routes[other]
                == view.routes[other]
            &&& removed.routes.dom().contains(other) == known && removed.routes[other]
                == view.routes[other]
        }),
{
}

/// A label that was registered is routed to its session and generation, cannot be registered again,
/// and what was registered can be taken away, which leaves what was there before.
pub proof fn law_labels_are_registered_once(
    view: RegistryView,
    operations: RegistryOperations,
    label: Seq<char>,
    session: SessionId,
    generation: Generation,
    other_session: SessionId,
    other_generation: Generation,
)
    ensures
        ({
            let (registered, after) = label_registered(
                view,
                operations,
                label,
                session,
                generation,
            );
            let (removed, left) = label_removed(after, operations, label, generation);
            &&& registered is Ok <==> !view.routes.dom().contains(label)
                && !view.hosted.dom().contains(session@)
            &&& registered is Err ==> after == view
            &&& registered is Ok ==> {
                &&& after.routes.dom().contains(label)
                &&& after.routes[label].session == session
                &&& after.routes[label].generation == generation
                &&& after.hosted.dom().contains(session@)
                &&& label_registered(
                    after,
                    operations,
                    label,
                    other_session,
                    other_generation,
                ).0 is Err
                &&& label_attached(after, operations, label, generation).0 is Ok
                &&& removed is Ok
                &&& left == view
            }
        }),
{
    let after = label_registered(view, operations, label, session, generation).1;
    let left = label_removed(after, operations, label, generation).1;
    if label_registered(view, operations, label, session, generation).0 is Ok {
        assert(left.routes =~= view.routes);
        assert(left.hosted =~= view.hosted);
    }
}

/// Nothing is done for a label that is not registered or for a generation that it does not stand
/// for, and the two are told apart.
pub proof fn law_only_routed_generations_act(
    view: RegistryView,
    operations: RegistryOperations,
    label: Seq<char>,
    generation: Generation,
)
    requires
        !(view.routes.dom().contains(label) && view.routes[label].generation == generation),
    ensures
        label_attached(view, operations, label, generation).0 is Err,
        label_attached(view, operations, label, generation).1 == view,
        label_replaced(view, operations, label, generation).0 is Err,
        label_replaced(view, operations, label, generation).1 == view,
        label_removed(view, operations, label, generation).0 is Err,
        label_removed(view, operations, label, generation).1 == view,
        label_removed(view, operations, label, generation).0->Err_0.code is Closed
            <==> !view.routes.dom().contains(label),
        label_removed(view, operations, label, generation).0->Err_0.code is StaleGeneration
            <==> view.routes.dom().contains(label),
{
}

/// A replaced label stands for the very next generation of the same session, and a removed one for
/// nothing.
pub proof fn law_replaced_labels_stand_for_the_next_generation(
    view: RegistryView,
    operations: RegistryOperations,
    label: Seq<char>,
    generation: Generation,
)
    ensures
        ({
            let (replaced, after) = label_replaced(view, operations, label, generation);
            let (removed, left) = label_removed(view, operations, label, generation);
            &&& replaced matches Ok(next) ==> {
                &&& next@ == generation@ + 1
                &&& after.routes.dom() == view.routes.dom()
                &&& after.routes[label].session == view.routes[label].session
                &&& after.routes[label].generation == next
                &&& after.hosted[view.routes[label].session@].generation == next
                &&& label_attached(after, operations, label, next).0 is Ok
            }
            &&& replaced is Err ==> after.routes == view.routes
            &&& removed is Ok ==> left.routes == view.routes.remove(label)
                && !left.hosted.dom().contains(view.routes[label].session@)
            &&& removed is Err ==> left == view
        }),
{
    let after = label_replaced(view, operations, label, generation).1;
    if label_replaced(view, operations, label, generation).0 is Ok {
        assert(after.routes.dom() =~= view.routes.dom());
    }
}

/// A failure of an adapter keeps its code; it is one of the lifecycle, and another endpoint gets
/// over it.
pub proof fn law_adapter_failures_are_of_the_lifecycle(code: ErrorCode, operation: &'static str)
    ensures
        adapter_report(code, operation).code == code,
        adapter_report(code, operation).context == operation,
        adapter_report(code, operation).category is Lifecycle,
        adapter_report(code, operation).recoverability is ReplaceEndpoint,
{
}

/// An unknown label is closed, another generation of a known one stale, and a second registration
/// out of order.
pub proof fn law_refused_labels_are_told_apart(
    view: RegistryView,
    operations: RegistryOperations,
    label: Seq<char>,
    session: SessionId,
    generation: Generation,
)
    ensures
        route_rejection(view, operations, label, generation) matches Some(error) ==> {
            &&& error.code is Closed <==> !view.routes.dom().contains(label)
            &&& error.code is StaleGeneration <==> view.routes.dom().contains(label)
        },
        view.routes.dom().contains(label) ==> (label_registered(
            view,
            operations,
            label,
            session,
            generation,
        ).0 matches Err(error) && error.code is InvalidStateTransition),
{
}

} // verus!
