//! Injected-bundle page and document lifecycle orchestration.

use std::collections::{HashMap, HashSet};

use vstd::prelude::*;

use crate::bootstrap::renderer::RendererAttachment;
use crate::domain::error::{
    plain_outcome, report, ErrorCategory, ErrorCode, ErrorReport, Recoverability,
};
use crate::domain::types::{group_identities, DocumentGeneration, Generation, SessionId};
use crate::macos::bundle_api::{
    boundary_report, valid_initialization, BundleEntrypoint, BundleEvent, FrameContext,
    InitializationData, PageId,
};

verus! {

broadcast use {group_identities, vstd::std_specs::hash::group_hash_axioms};

/// What an installer was asked for, and what became of it.
pub enum BindingStep {
    /// To install a binding.
    Install(FrameContext, DocumentGeneration, Result<(), ErrorReport>),
    /// To remove the binding of a document.
    Invalidate(PageId, DocumentGeneration),
}

/// JavaScript binding operations supplied by the JSC adapter.
pub trait BindingInstaller {
    /// What the installer was asked for, in order.
    open spec fn steps(&self) -> Seq<BindingStep> {
        arbitrary()
    }

    /// Installs the NWIPC binding for one eligible document.
    ///
    /// A renderer binding installation failure is returned.
    fn install(
        &mut self,
        context: FrameContext,
        document: DocumentGeneration,
    ) -> (installed: Result<
        (),
        ErrorReport,
    >)
        ensures
            final(self).steps() == old(self).steps().push(
                BindingStep::Install(context, document, plain_outcome(installed)),
            ),
    ;

    /// Removes protected objects and callbacks for an invalidated document.
    fn invalidate(&mut self, page: PageId, document: DocumentGeneration)
        ensures
            final(self).steps() == old(self).steps().push(BindingStep::Invalidate(page, document)),
    ;
}

/// A live page.
#[derive(Clone, Copy, Debug, PartialEq, Eq, Structural)]
pub struct Page {
    /// Current document.
    pub document: DocumentGeneration,
    /// Whether the document has its binding.
    pub binding_installed: bool,
}

/// Generation-scoped state owned inside the `WebContent` process.
pub struct MacosBundle<Installer, Memory, Signal> {
    installer: Installer,
    initialization: Option<InitializationData>,
    attachment: Option<RendererAttachment<Memory, Signal>>,
    identity: Option<(SessionId, Generation)>,
    pages: HashMap<u64, Page>,
    destroyed_pages: HashSet<u64>,
    next_document: u64,
}

/// The state of a bundle.
#[verifier::ext_equal]
pub struct BundleView {
    /// Copied initialization data.
    pub initialization: Option<Seq<u8>>,
    /// Whether provider resources are attached.
    pub attached: bool,
    /// Active session and resource generation.
    pub identity: Option<(SessionId, Generation)>,
    /// Live pages.
    pub pages: Map<u64, Page>,
    /// Pages that were destroyed.
    pub destroyed: Set<u64>,
    /// Identity of the next document.
    pub next_document: u64,
}

/// The report of a lifecycle failure.
pub open spec fn lifecycle_report(operation: &'static str) -> ErrorReport {
    report(
        ErrorCategory::Lifecycle,
        ErrorCode::InvalidStateTransition,
        Recoverability::ReplaceEndpoint,
        operation,
    )
}

fn lifecycle_error(operation: &'static str) -> (created: ErrorReport)
    ensures
        created == lifecycle_report(operation),
{
    ErrorReport::new(
        ErrorCategory::Lifecycle,
        ErrorCode::InvalidStateTransition,
        Recoverability::ReplaceEndpoint,
        operation,
    )
}

/// The report on a binding before its resources.
pub open spec fn early_binding_report() -> ErrorReport {
    report(
        ErrorCategory::Bootstrap,
        ErrorCode::InvalidStateTransition,
        Recoverability::ReplaceEndpoint,
        "bundle binding before attach",
    )
}

fn early_binding_error() -> (created: ErrorReport)
    ensures
        created == early_binding_report(),
{
    ErrorReport::new(
        ErrorCategory::Bootstrap,
        ErrorCode::InvalidStateTransition,
        Recoverability::ReplaceEndpoint,
        "bundle binding before attach",
    )
}

impl BundleView {
    /// Whether a document can be numbered.
    pub open spec fn can_allocate(self) -> bool {
        0 < self.next_document < u64::MAX
    }

    /// The next document.
    pub open spec fn fresh_document(self) -> DocumentGeneration {
        DocumentGeneration::of(self.next_document)
    }

    /// The state after a document was numbered.
    pub open spec fn allocated(self) -> BundleView {
        BundleView { next_document: (self.next_document + 1) as u64, ..self }
    }

    /// Why initialization data is refused, if it is.
    pub open spec fn initialization_rejection(self, bytes: Seq<u8>) -> Option<ErrorReport> {
        if self.initialization is Some {
            Some(lifecycle_report("duplicate bundle initialization"))
        } else if !valid_initialization(bytes) {
            Some(boundary_report())
        } else {
            None
        }
    }

    /// Why a page cannot be created, if it cannot.
    pub open spec fn creation_rejection(self, page: PageId) -> Option<ErrorReport> {
        if self.destroyed.contains(page@) || self.pages.dom().contains(page@) {
            Some(lifecycle_report("bundle page creation"))
        } else if !self.can_allocate() {
            Some(lifecycle_report("bundle document identity"))
        } else {
            None
        }
    }

    /// The state with a page.
    pub open spec fn with_page(self, page: PageId, entry: Page) -> BundleView {
        BundleView { pages: self.pages.insert(page@, entry), ..self }
    }

    /// Why a binding cannot be installed, if it cannot.
    pub open spec fn install_rejection(self, context: FrameContext) -> Option<ErrorReport> {
        if !self.attached || self.initialization is None {
            Some(early_binding_report())
        } else if !self.pages.dom().contains(context.page@) {
            Some(lifecycle_report("bundle unknown page"))
        } else {
            None
        }
    }

    /// Whether the installer is asked for a binding.
    pub open spec fn asks_installer(self, context: FrameContext) -> bool {
        &&& context.is_eligible()
        &&& self.install_rejection(context) is None
        &&& !self.pages[context.page@].binding_installed
    }

    /// Every live document was numbered before the next one, and no page is live and destroyed.
    pub open spec fn is_consistent(self) -> bool {
        &&& self.next_document > 0
        &&& forall|page: u64|
            #![trigger self.pages[page]]
            self.pages.dom().contains(page) ==> self.pages[page].document@ < self.next_document
        &&& forall|page: u64| #![trigger self.pages.dom().contains(page)]
            self.pages.dom().contains(page) ==> !self.destroyed.contains(page)
    }
}

/// A page gets a document that no page ever had, and the state stays consistent.
pub proof fn law_documents_are_fresh(bundle: BundleView, page: PageId)
    requires
        bundle.is_consistent(),
        bundle.can_allocate(),
        !bundle.destroyed.contains(page@),
    ensures
        forall|other: u64| #![trigger bundle.pages[other]]
            bundle.pages.dom().contains(other) ==> bundle.pages[other].document
                != bundle.fresh_document(),
        bundle.allocated().with_page(
            page,
            Page { document: bundle.fresh_document(), binding_installed: false },
        ).is_consistent(),
{
    let entry = Page { document: bundle.fresh_document(), binding_installed: false };
    let after = bundle.allocated().with_page(page, entry);
    assert(bundle.fresh_document()@ == bundle.next_document);
    assert forall|other: u64| #![trigger after.pages[other]]
        after.pages.dom().contains(other) implies after.pages[other].document@
        < after.next_document by {
        if other != page@ {
            assert(after.pages[other] == bundle.pages[other]);
        }
    }
}

/// A destroyed page never comes back.
pub proof fn law_destroyed_pages_stay_destroyed(bundle: BundleView, page: PageId)
    requires
        bundle.destroyed.contains(page@),
    ensures
        bundle.creation_rejection(page) == Some(lifecycle_report("bundle page creation")),
{
}

/// No binding is asked for before initialization and attachment, outside of the main frame, or in
/// an isolated world.
pub proof fn law_bindings_are_gated(bundle: BundleView, context: FrameContext)
    requires
        bundle.asks_installer(context),
    ensures
        bundle.attached,
        bundle.initialization is Some,
        context.is_main_frame,
        context.world is Normal,
{
}

impl<Installer, Memory, Signal> View for MacosBundle<Installer, Memory, Signal> {
    type V = BundleView;

    closed spec fn view(&self) -> BundleView {
        BundleView {
            initialization: match self.initialization {
                Some(data) => Some(data@),
                None => None,
            },
            attached: self.attachment is Some,
            identity: self.identity,
            pages: self.pages@,
            destroyed: self.destroyed_pages@,
            next_document: self.next_document,
        }
    }
}

impl<Installer: BindingInstaller, Memory, Signal> MacosBundle<Installer, Memory, Signal> {
    /// What the installer was asked for, in order.
    pub closed spec fn steps(self) -> Seq<BindingStep> {
        self.installer.steps()
    }

    /// Creates an inert bundle. Bindings remain closed until [`Self::activate`] succeeds.
    pub fn new(installer: Installer) -> (bundle: Self)
        ensures
            bundle@ == (BundleView {
                initialization: None,
                attached: false,
                identity: None,
                pages: Map::empty(),
                destroyed: Set::empty(),
                next_document: 1,
            }),
            bundle@.is_consistent(),
            bundle.steps() == installer.steps(),
    {
        MacosBundle {
            installer,
            initialization: None,
            attachment: None,
            identity: None,
            pages: HashMap::new(),
            destroyed_pages: HashSet::new(),
            next_document: 1,
        }
    }

    /// Retains validated provider resources and opens the binding-install gate.
    pub fn activate(&mut self, attachment: RendererAttachment<Memory, Signal>)
        ensures
            final(self)@ == (BundleView {
                attached: true,
                identity: Some(
                    (attachment.validated().session_id, attachment.validated().generation),
                ),
                ..old(self)@
            }),
            final(self).steps() == old(self).steps(),
    {
        self.identity = Some(
            (attachment.envelope().session_id(), attachment.envelope().generation()),
        );
        self.attachment = Some(attachment);
    }

    /// Active session and resource generation.
    pub fn identity(&self) -> (identity: Option<(SessionId, Generation)>)
        ensures
            identity == self@.identity,
    {
        self.identity
    }

    /// Returns whether an eligible binding is installed for a page.
    pub fn binding_is_installed(&self, page: PageId) -> (installed: bool)
        ensures
            installed == (self@.pages.dom().contains(page@)
                && self@.pages[page@].binding_installed),
    {
        match self.pages.get(&page.get()) {
            Some(found) => found.binding_installed,
            None => false,
        }
    }

    fn allocate_document(&mut self) -> (allocated: Result<DocumentGeneration, ErrorReport>)
        ensures
            final(self).steps() == old(self).steps(),
            if old(self)@.can_allocate() {
                &&& allocated == Ok::<DocumentGeneration, ErrorReport>(old(self)@.fresh_document())
                &&& final(self)@ == old(self)@.allocated()
            } else {
                &&& allocated == Err::<DocumentGeneration, ErrorReport>(
                    lifecycle_report("bundle document identity"),
                )
                &&& final(self)@ == old(self)@
            },
    {
        let document = match DocumentGeneration::new(self.next_document) {
            Some(document) => document,
            None => {
                return Err(lifecycle_error("bundle document identity"));
            },
        };
        match self.next_document.checked_add(1) {
            Some(next) => {
                self.next_document = next;
                Ok(document)
            },
            None => Err(lifecycle_error("bundle document identity")),
        }
    }

    fn create_page(&mut self, page: PageId) -> (created: Result<(), ErrorReport>)
        ensures
            final(self).steps() == old(self).steps(),
            match old(self)@.creation_rejection(page) {
                Some(error) => created == Err::<(), ErrorReport>(error) && final(self)@
                    == old(self)@,
                None => created is Ok && final(self)@ == old(self)@.allocated().with_page(
                    page,
                    Page { document: old(self)@.fresh_document(), binding_installed: false },
                ),
            },
    {
        if self.destroyed_pages.contains(&page.get()) || self.pages.contains_key(&page.get()) {
            return Err(lifecycle_error("bundle page creation"));
        }
        let document = self.allocate_document()?;
        self.pages.insert(page.get(), Page { document, binding_installed: false });
        Ok(())
    }

    fn install(&mut self, context: FrameContext) -> (installed: Result<(), ErrorReport>)
        ensures
            if !context.is_eligible() {
                &&& installed is Ok
                &&& final(self)@ == old(self)@
                &&& final(self).steps() == old(self).steps()
            } else if let Some(error) = old(self)@.install_rejection(context) {
                &&& installed == Err::<(), ErrorReport>(error)
                &&& final(self)@ == old(self)@
                &&& final(self).steps() == old(self).steps()
            } else if !old(self)@.asks_installer(context) {
                &&& installed is Ok
                &&& final(self)@ == old(self)@
                &&& final(self).steps() == old(self).steps()
            } else {
                let document = old(self)@.pages[context.page@].document;
                &&& final(self).steps() == old(self).steps().push(
                    BindingStep::Install(context, document, plain_outcome(installed)),
                )
                &&& final(self)@ == if installed is Ok {
                    old(self)@.with_page(
                        context.page,
                        Page { document, binding_installed: true },
                    )
                } else {
                    old(self)@
                }
            },
    {
        if !context.binding_is_allowed() {
            return Ok(());
        }
        if self.attachment.is_none() || self.initialization.is_none() {
            return Err(early_binding_error());
        }
        let page = match self.pages.get(&context.page.get()) {
            Some(page) => *page,
            None => {
                return Err(lifecycle_error("bundle unknown page"));
            },
        };
        if page.binding_installed {
            return Ok(());
        }
        self.installer.install(context, page.document)?;
        self.pages.insert(
            context.page.get(),
            Page { document: page.document, binding_installed: true },
        );
        Ok(())
    }

    fn invalidate_document(&mut self, page_id: PageId) -> (invalidated: Result<(), ErrorReport>)
        ensures
            if !old(self)@.can_allocate() {
                &&& invalidated == Err::<(), ErrorReport>(
                    lifecycle_report("bundle document identity"),
                )
                &&& final(self)@ == old(self)@
                &&& final(self).steps() == old(self).steps()
            } else if !old(self)@.pages.dom().contains(page_id@) {
                &&& invalidated == Err::<(), ErrorReport>(
                    lifecycle_report("bundle document invalidation"),
                )
                &&& final(self)@ == old(self)@.allocated()
                &&& final(self).steps() == old(self).steps()
            } else {
                &&& invalidated is Ok
                &&& final(self)@ == old(self)@.allocated().with_page(
                    page_id,
                    Page { document: old(self)@.fresh_document(), binding_installed: false },
                )
                &&& final(self).steps() == old(self).steps().push(
                    BindingStep::Invalidate(page_id, old(self)@.pages[page_id@].document),
                )
            },
    {
        let next_document = self.allocate_document()?;
        let page = match self.pages.get(&page_id.get()) {
            Some(page) => *page,
            None => {
                return Err(lifecycle_error("bundle document invalidation"));
            },
        };
        self.installer.invalidate(page_id, page.document);
        self.pages.insert(
            page_id.get(),
            Page { document: next_document, binding_installed: false },
        );
        Ok(())
    }

    fn destroy_page(&mut self, page_id: PageId) -> (destroyed: Result<(), ErrorReport>)
        ensures
            if !old(self)@.pages.dom().contains(page_id@) {
                &&& destroyed == Err::<(), ErrorReport>(lifecycle_report("bundle page destruction"))
                &&& final(self)@ == old(self)@
                &&& final(self).steps() == old(self).steps()
            } else {
                &&& destroyed is Ok
                &&& final(self)@ == (BundleView {
                    pages: old(self)@.pages.remove(page_id@),
                    destroyed: old(self)@.destroyed.insert(page_id@),
                    ..old(self)@
                })
                &&& final(self).steps() == old(self).steps().push(
                    BindingStep::Invalidate(page_id, old(self)@.pages[page_id@].document),
                )
            },
    {
        let page = match self.pages.remove(&page_id.get()) {
            Some(page) => page,
            None => {
                proof {
                    assert(self.pages@ =~= old(self).pages@);
                }
                return Err(lifecycle_error("bundle page destruction"));
            },
        };
        self.installer.invalidate(page_id, page.document);
        self.destroyed_pages.insert(page_id.get());
        Ok(())
    }

    fn initialize(&mut self, bytes: &[u8]) -> (initialized: Result<(), ErrorReport>)
        ensures
            final(self).steps() == old(self).steps(),
            match old(self)@.initialization_rejection(bytes@) {
                Some(error) => initialized == Err::<(), ErrorReport>(error) && final(self)@
                    == old(self)@,
                None => initialized is Ok && final(self)@ == (BundleView {
                    initialization: Some(bytes@),
                    ..old(self)@
                }),
            },
    {
        if self.initialization.is_some() {
            return Err(lifecycle_error("duplicate bundle initialization"));
        }
        let data = InitializationData::copy_from(bytes)?;
        self.initialization = Some(data);
        Ok(())
    }
}

/// What becomes of a bundle with an event.
pub open spec fn event_handled(
    before: BundleView,
    steps_before: Seq<BindingStep>,
    event: BundleEvent<'_>,
    outcome: Result<(), ErrorReport>,
    after: BundleView,
    steps_after: Seq<BindingStep>,
) -> bool {
    match event {
        BundleEvent::Initialize(bytes) => {
            &&& steps_after == steps_before
            &&& match before.initialization_rejection(bytes@) {
                Some(error) => outcome == Err::<(), ErrorReport>(error) && after == before,
                None => outcome is Ok && after == (BundleView {
                    initialization: Some(bytes@),
                    ..before
                }),
            }
        },
        BundleEvent::PageCreated(page) => {
            &&& steps_after == steps_before
            &&& match before.creation_rejection(page) {
                Some(error) => outcome == Err::<(), ErrorReport>(error) && after == before,
                None => outcome is Ok && after == before.allocated().with_page(
                    page,
                    Page { document: before.fresh_document(), binding_installed: false },
                ),
            }
        },
        BundleEvent::WindowObjectCleared(context) => if before.asks_installer(context) {
            let document = before.pages[context.page@].document;
            &&& steps_after == steps_before.push(
                BindingStep::Install(context, document, plain_outcome(outcome)),
            )
            &&& after == if outcome is Ok {
                before.with_page(context.page, Page { document, binding_installed: true })
            } else {
                before
            }
        } else {
            &&& steps_after == steps_before
            &&& after == before
            &&& if context.is_eligible() && before.install_rejection(context) is Some {
                outcome == Err::<(), ErrorReport>(before.install_rejection(context)->0)
            } else {
                outcome is Ok
            }
        },
        BundleEvent::DocumentInvalidated(page) => if !before.can_allocate() {
            &&& outcome == Err::<(), ErrorReport>(lifecycle_report("bundle document identity"))
            &&& after == before
            &&& steps_after == steps_before
        } else if !before.pages.dom().contains(page@) {
            &&& outcome == Err::<(), ErrorReport>(lifecycle_report("bundle document invalidation"))
            &&& after == before.allocated()
            &&& steps_after == steps_before
        } else {
            &&& outcome is Ok
            &&& after == before.allocated().with_page(
                page,
                Page { document: before.fresh_document(), binding_installed: false },
            )
            &&& steps_after == steps_before.push(
                BindingStep::Invalidate(page, before.pages[page@].document),
            )
        },
        BundleEvent::PageDestroyed(page) => if !before.pages.dom().contains(page@) {
            &&& outcome == Err::<(), ErrorReport>(lifecycle_report("bundle page destruction"))
            &&& after == before
            &&& steps_after == steps_before
        } else {
            &&& outcome is Ok
            &&& after == (BundleView {
                pages: before.pages.remove(page@),
                destroyed: before.destroyed.insert(page@),
                ..before
            })
            &&& steps_after == steps_before.push(
                BindingStep::Invalidate(page, before.pages[page@].document),
            )
        },
    }
}

/// Every event keeps a bundle consistent.
pub proof fn law_events_keep_consistency(
    before: BundleView,
    steps_before: Seq<BindingStep>,
    event: BundleEvent<'_>,
    outcome: Result<(), ErrorReport>,
    after: BundleView,
    steps_after: Seq<BindingStep>,
)
    requires
        before.is_consistent(),
        event_handled(before, steps_before, event, outcome, after, steps_after),
    ensures
        after.is_consistent(),
{
    assert(before.fresh_document()@ == before.next_document);
    assert forall|page: u64| #![trigger after.pages[page]]
        after.pages.dom().contains(page) implies after.pages[page].document@
        < after.next_document by {
        if before.pages.dom().contains(page) {
            assert(before.pages[page].document@ < before.next_document);
        }
    }
    assert forall|page: u64| #![trigger after.pages.dom().contains(page)]
        after.pages.dom().contains(page) implies !after.destroyed.contains(page) by {
        assert(before.pages.dom().contains(page) ==> !before.destroyed.contains(page));
    }
}

/// Something that happened to a bundle.
pub enum BundleCall<'a> {
    /// Provider resources of a generation were attached.
    Activated(SessionId, Generation),
    /// An event was handled, and this came of it.
    Handled(BundleEvent<'a>, Result<(), ErrorReport>),
}

/// A bundle and what its installer was asked for.
pub struct BundleMoment {
    /// The bundle.
    pub bundle: BundleView,
    /// What the installer was asked for, in order.
    pub steps: Seq<BindingStep>,
}

/// Whether a bundle moved so.
pub open spec fn bundle_moved(
    before: BundleMoment,
    call: BundleCall<'_>,
    after: BundleMoment,
) -> bool {
    match call {
        BundleCall::Activated(session_id, generation) => {
            &&& after.bundle == (BundleView {
                attached: true,
                identity: Some((session_id, generation)),
                ..before.bundle
            })
            &&& after.steps == before.steps
        },
        BundleCall::Handled(event, outcome) => event_handled(
            before.bundle,
            before.steps,
            event,
            outcome,
            after.bundle,
            after.steps,
        ),
    }
}

/// Whether a bundle went through these moments by these calls, from its creation on.
pub open spec fn bundle_run(moments: Seq<BundleMoment>, calls: Seq<BundleCall<'_>>) -> bool {
    &&& moments.len() == calls.len() + 1
    &&& !moments[0].bundle.attached
    &&& moments[0].bundle.initialization is None
    &&& moments[0].bundle.pages == Map::<u64, Page>::empty()
    &&& forall|index: int|
        0 <= index < calls.len() ==> bundle_moved(
            moments[index],
            #[trigger] calls[index],
            moments[index + 1],
        )
}

/// The pages whose current document has its binding, as the calls tell: a global object that was
/// cleared in the normal world of a page's main frame gives it one, and a new document, the end of
/// the page, or its creation takes it away.
pub open spec fn bound_pages(calls: Seq<BundleCall<'_>>) -> Set<u64>
    decreases calls.len(),
{
    if calls.len() == 0 {
        Set::empty()
    } else {
        let earlier = bound_pages(calls.drop_last());
        match calls.last() {
            BundleCall::Handled(
                BundleEvent::WindowObjectCleared(context),
                Ok(_),
            ) => if context.is_eligible() {
                earlier.insert(context.page@)
            } else {
                earlier
            },
            BundleCall::Handled(BundleEvent::PageCreated(page), Ok(_)) => earlier.remove(page@),
            BundleCall::Handled(BundleEvent::DocumentInvalidated(page), Ok(_)) => earlier.remove(
                page@,
            ),
            BundleCall::Handled(BundleEvent::PageDestroyed(page), Ok(_)) => earlier.remove(page@),
            _ => earlier,
        }
    }
}

/// Whether resources were attached in a run.
pub open spec fn was_activated(calls: Seq<BundleCall<'_>>) -> bool {
    exists|index: int| 0 <= index < calls.len() && #[trigger] calls[index] is Activated
}

/// Whether initialization data was accepted in a run.
pub open spec fn was_initialized(calls: Seq<BundleCall<'_>>) -> bool {
    exists|index: int|
        0 <= index < calls.len() && (#[trigger] calls[index] matches BundleCall::Handled(
            BundleEvent::Initialize(_),
            Ok(_),
        ))
}

/// Over any run of a bundle, a page has its binding exactly where an eligible global object was
/// cleared in it since its current document began, and no page has one unless resources were
/// attached and initialization data was accepted before.
pub proof fn law_bindings_follow_the_events(
    moments: Seq<BundleMoment>,
    calls: Seq<BundleCall<'_>>,
    page: u64,
)
    requires
        bundle_run(moments, calls),
    ensures
        ({
            let bundle = moments.last().bundle;
            let installed = bundle.pages.dom().contains(page)
                && bundle.pages[page].binding_installed;
            &&& installed <==> bound_pages(calls).contains(page)
            &&& installed ==> was_activated(calls) && was_initialized(calls)
            &&& bundle.attached <==> was_activated(calls)
            &&& bundle.initialization is Some <==> was_initialized(calls)
        }),
    decreases calls.len(),
{
    if calls.len() > 0 {
        let earlier = moments.drop_last();
        let fewer = calls.drop_last();
        assert forall|index: int| 0 <= index < fewer.len() implies bundle_moved(
            earlier[index],
            #[trigger] fewer[index],
            earlier[index + 1],
        ) by {
            assert(fewer[index] == calls[index]);
        }
        law_bindings_follow_the_events(earlier, fewer, page);
        let last = calls.len() - 1;
        assert(bundle_moved(moments[last], calls[last], moments[last + 1]));
        assert(was_activated(calls) <==> was_activated(fewer) || calls[last] is Activated) by {
            if was_activated(fewer) {
                let index = choose|index: int|
                    0 <= index < fewer.len() && #[trigger] fewer[index] is Activated;
                assert(calls[index] is Activated);
            }
            if was_activated(calls) {
                let index = choose|index: int|
                    0 <= index < calls.len() && #[trigger] calls[index] is Activated;
                if index < last {
                    assert(fewer[index] is Activated);
                }
            }
        }
        let begins = calls[last] matches BundleCall::Handled(BundleEvent::Initialize(_), Ok(_));
        assert(was_initialized(calls) <==> was_initialized(fewer) || begins) by {
            if was_initialized(fewer) {
                let index = choose|index: int|
                    0 <= index < fewer.len()
                        && (#[trigger] fewer[index] matches BundleCall::Handled(
                        BundleEvent::Initialize(_),
                        Ok(_),
                    ));
                assert(calls[index] == fewer[index]);
            }
            if was_initialized(calls) {
                let index = choose|index: int|
                    0 <= index < calls.len()
                        && (#[trigger] calls[index] matches BundleCall::Handled(
                        BundleEvent::Initialize(_),
                        Ok(_),
                    ));
                if index < last {
                    assert(fewer[index] == calls[index]);
                }
            }
        }
    }
}

impl<Installer: BindingInstaller, Memory, Signal> BundleEntrypoint for MacosBundle<
    Installer,
    Memory,
    Signal,
> {
    fn handle(&mut self, event: BundleEvent<'_>) -> (outcome: Result<(), ErrorReport>)
        ensures
            event_handled(
                old(self)@,
                old(self).steps(),
                event,
                outcome,
                final(self)@,
                final(self).steps(),
            ),
    {
        match event {
            BundleEvent::Initialize(bytes) => self.initialize(bytes),
            BundleEvent::PageCreated(page) => self.create_page(page),
            BundleEvent::WindowObjectCleared(context) => self.install(context),
            BundleEvent::DocumentInvalidated(page) => self.invalidate_document(page),
            BundleEvent::PageDestroyed(page) => self.destroy_page(page),
        }
    }
}

/// A refused event changes no page, no document in use and no initialization data, and asks the
/// installer for nothing but the binding that failed.
pub proof fn law_refused_events_change_no_page(
    before: BundleView,
    steps_before: Seq<BindingStep>,
    event: BundleEvent<'_>,
    error: ErrorReport,
    after: BundleView,
    steps_after: Seq<BindingStep>,
)
    requires
        event_handled(before, steps_before, event, Err(error), after, steps_after),
    ensures
        after.pages == before.pages,
        after.destroyed == before.destroyed,
        after.initialization == before.initialization,
        after.attached == before.attached,
        after.identity == before.identity,
        steps_after == steps_before || (event is WindowObjectCleared && steps_after.len()
            == steps_before.len() + 1 && steps_after.drop_last() == steps_before),
        before.next_document <= after.next_document,
{
    if steps_after != steps_before {
        assert(steps_after.drop_last() =~= steps_before);
    }
}

/// Data is initialized once, with the very bytes that were handed over.
pub proof fn law_bundles_are_initialized_once(
    before: BundleView,
    steps_before: Seq<BindingStep>,
    bytes: &[u8],
    outcome: Result<(), ErrorReport>,
    after: BundleView,
    steps_after: Seq<BindingStep>,
)
    requires
        event_handled(
            before,
            steps_before,
            BundleEvent::Initialize(bytes),
            outcome,
            after,
            steps_after,
        ),
    ensures
        outcome is Ok <==> before.initialization is None && 0 < bytes@.len() <= 16384,
        outcome is Ok ==> after.initialization == Some(bytes@),
        outcome is Err ==> after == before,
        steps_after == steps_before,
        after.pages == before.pages,
{
}

/// Every document that ends, with its page or before it, has its binding taken away, under the
/// document that it belonged to, and its page goes on with a document that is newer.
pub proof fn law_documents_end_with_their_binding(
    before: BundleView,
    steps_before: Seq<BindingStep>,
    page: PageId,
    invalidated: Result<(), ErrorReport>,
    renewed: BundleView,
    renewed_steps: Seq<BindingStep>,
    destroyed: Result<(), ErrorReport>,
    gone: BundleView,
    gone_steps: Seq<BindingStep>,
)
    requires
        before.is_consistent(),
        event_handled(
            before,
            steps_before,
            BundleEvent::DocumentInvalidated(page),
            invalidated,
            renewed,
            renewed_steps,
        ),
        event_handled(
            before,
            steps_before,
            BundleEvent::PageDestroyed(page),
            destroyed,
            gone,
            gone_steps,
        ),
    ensures
        invalidated is Ok ==> {
            &&& before.pages.dom().contains(page@)
            &&& renewed_steps == steps_before.push(
                BindingStep::Invalidate(page, before.pages[page@].document),
            )
            &&& !renewed.pages[page@].binding_installed
            &&& renewed.pages[page@].document@ > before.pages[page@].document@
            &&& renewed.pages.dom() == before.pages.dom()
        },
        destroyed is Ok <==> before.pages.dom().contains(page@),
        destroyed is Ok ==> {
            &&& gone_steps == steps_before.push(
                BindingStep::Invalidate(page, before.pages[page@].document),
            )
            &&& !gone.pages.dom().contains(page@)
            &&& gone.destroyed.contains(page@)
            &&& gone.creation_rejection(page) is Some
        },
{
    assert(before.fresh_document()@ == before.next_document);
    if invalidated is Ok {
        assert(before.pages[page@].document@ < before.next_document);
        assert(renewed.pages.dom() =~= before.pages.dom());
    }
}

/// Events of one page leave every other page as it is.
pub proof fn law_pages_do_not_touch_each_other(
    before: BundleView,
    steps_before: Seq<BindingStep>,
    event: BundleEvent<'_>,
    outcome: Result<(), ErrorReport>,
    after: BundleView,
    steps_after: Seq<BindingStep>,
    other: u64,
)
    requires
        event_handled(before, steps_before, event, outcome, after, steps_after),
        match event {
            BundleEvent::PageCreated(page) => page@ != other,
            BundleEvent::WindowObjectCleared(context) => context.page@ != other,
            BundleEvent::DocumentInvalidated(page) => page@ != other,
            BundleEvent::PageDestroyed(page) => page@ != other,
            BundleEvent::Initialize(_) => true,
        },
    ensures
        after.pages.dom().contains(other) == before.pages.dom().contains(other),
        after.pages[other] == before.pages[other],
        after.destroyed.contains(other) == before.destroyed.contains(other),
{
}

/// An event that comes at the wrong time is a matter of the lifecycle, and another endpoint gets
/// over it.
pub proof fn law_bundle_failures_are_of_the_lifecycle(operation: &'static str)
    ensures
        lifecycle_report(operation).context == operation,
        lifecycle_report(operation).code is InvalidStateTransition,
        lifecycle_report(operation).category is Lifecycle,
        lifecycle_report(operation).recoverability is ReplaceEndpoint,
{
}

} // verus!
