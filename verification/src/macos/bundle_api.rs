//! Stable, WebKit-header-free contract between the injected-bundle shim and its orchestration.

use vstd::prelude::*;

use crate::bootstrap::schema::fill_bytes;
use crate::domain::bytes::push_bytes;
use crate::domain::error::{report, ErrorCategory, ErrorCode, ErrorReport, Recoverability};
use crate::domain::text::{decimal, decimal_digits};

verus! {

/// Maximum initialization parameter accepted across the bundle boundary.
pub const MAX_INITIALIZATION_DATA: usize = 16384;

/// Opaque `WebKit` page identity.
#[derive(Clone, Copy, Debug, PartialEq, Eq, Hash, Structural)]
pub struct PageId {
    value: u64,
}

impl View for PageId {
    type V = u64;

    closed spec fn view(&self) -> u64 {
        self.value
    }
}

impl PageId {
    /// Creates a non-zero page identity.
    pub fn new(value: u64) -> (created: Option<Self>)
        ensures
            match created {
                Some(page) => value != 0 && page@ == value,
                None => value == 0,
            },
    {
        if value == 0 {
            None
        } else {
            Some(PageId { value })
        }
    }

    /// Returns the embedding-provided value.
    pub fn get(self) -> (value: u64)
        ensures
            value == self@,
    {
        self.value
    }
}

/// Opaque `WebKit` frame identity.
#[derive(Clone, Copy, Debug, PartialEq, Eq, Hash, Structural)]
pub struct FrameId {
    value: u64,
}

impl View for FrameId {
    type V = u64;

    closed spec fn view(&self) -> u64 {
        self.value
    }
}

impl FrameId {
    /// Creates a non-zero frame identity.
    pub fn new(value: u64) -> (created: Option<Self>)
        ensures
            match created {
                Some(frame) => value != 0 && frame@ == value,
                None => value == 0,
            },
    {
        if value == 0 {
            None
        } else {
            Some(FrameId { value })
        }
    }
}

/// Script world in which a window-object callback occurred.
#[derive(Clone, Copy, Debug, PartialEq, Eq, Structural)]
pub enum ScriptWorld {
    /// Page's normal JavaScript world.
    Normal,
    /// An isolated application or extension world.
    Isolated,
}

/// Data needed to decide whether a JavaScript binding may be installed.
#[derive(Clone, Copy, Debug, PartialEq, Eq, Structural)]
pub struct FrameContext {
    /// Owning page.
    pub page: PageId,
    /// Frame receiving the global object.
    pub frame: FrameId,
    /// True only for the page's main frame.
    pub is_main_frame: bool,
    /// JavaScript execution world.
    pub world: ScriptWorld,
}

impl FrameContext {
    /// Whether this is the main frame in the normal world.
    pub open spec fn is_eligible(self) -> bool {
        self.is_main_frame && self.world is Normal
    }

    /// Returns true only for the main frame in the normal world.
    pub fn binding_is_allowed(self) -> (allowed: bool)
        ensures
            allowed == self.is_eligible(),
    {
        self.is_main_frame && matches!(self.world, ScriptWorld::Normal)
    }
}

/// The report on initialization data out of bounds.
pub open spec fn boundary_report() -> ErrorReport {
    report(
        ErrorCategory::Bootstrap,
        ErrorCode::InvalidRange,
        Recoverability::ReplaceEndpoint,
        "bundle initialization data",
    )
}

/// Whether initialization data is within its bounds.
pub open spec fn valid_initialization(bytes: Seq<u8>) -> bool {
    0 < bytes.len() <= MAX_INITIALIZATION_DATA
}

/// Owned, bounded initialization data copied from the host.
pub struct InitializationData {
    bytes: Vec<u8>,
}

impl View for InitializationData {
    type V = Seq<u8>;

    closed spec fn view(&self) -> Seq<u8> {
        self.bytes@
    }
}

impl InitializationData {
    /// Copies a property-list compatible bootstrap envelope.
    ///
    /// Missing and oversized parameters are rejected before bundle initialization.
    pub fn copy_from(bytes: &[u8]) -> (copied: Result<Self, ErrorReport>)
        ensures
            match copied {
                Ok(data) => valid_initialization(bytes@) && data@ == bytes@,
                Err(error) => !valid_initialization(bytes@) && error == boundary_report(),
            },
    {
        if bytes.len() == 0 || bytes.len() > MAX_INITIALIZATION_DATA {
            return Err(
                ErrorReport::new(
                    ErrorCategory::Bootstrap,
                    ErrorCode::InvalidRange,
                    Recoverability::ReplaceEndpoint,
                    "bundle initialization data",
                ),
            );
        }
        let mut owned: Vec<u8> = Vec::new();
        push_bytes(&mut owned, bytes);
        proof {
            assert(owned@ =~= bytes@);
        }
        Ok(InitializationData { bytes: owned })
    }

    /// Borrows the copied bytes for one decoder invocation.
    pub fn as_bytes(&self) -> (bytes: &[u8])
        ensures
            bytes@ == self@,
    {
        self.bytes.as_slice()
    }

    /// Renders the count of bytes in place of the bytes.
    pub fn to_text(&self) -> (text: String)
        ensures
            text@ == initialization_text(self@),
    {
        let mut text = String::from_str("InitializationData(<redacted:");
        text.append(decimal(self.bytes.len() as u64).as_str());
        text.append(" bytes>)");
        text
    }
}

/// How initialization data is rendered.
pub open spec fn initialization_text(bytes: Seq<u8>) -> Seq<char> {
    "InitializationData(<redacted:"@ + decimal_digits(bytes.len()) + " bytes>)"@
}

impl Drop for InitializationData {
    fn drop(&mut self)
        opens_invariants none
        no_unwind
    {
        fill_bytes(&mut self.bytes, 0);
    }
}

/// Callback input normalized by the native shim.
#[derive(Clone, Copy, Debug)]
pub enum BundleEvent<'a> {
    /// `WebKit` created a page.
    PageCreated(PageId),
    /// A frame received a new normal or isolated world global object.
    WindowObjectCleared(FrameContext),
    /// `WebKit` invalidated a document before a replacement is installed.
    DocumentInvalidated(PageId),
    /// `WebKit` destroyed a page.
    PageDestroyed(PageId),
    /// Initialization user data arrived.
    Initialize(&'a [u8]),
}

/// Bundle implementation consumed only by the shim.
pub trait BundleEntrypoint {
    /// Delivers one normalized lifecycle event.
    ///
    /// A structured bootstrap, lifecycle, or platform failure is returned.
    fn handle(&mut self, event: BundleEvent<'_>) -> Result<(), ErrorReport>;
}

/// A binding is allowed in the main frame of the normal world, and nowhere else.
pub proof fn law_bindings_stay_in_the_main_frame(context: FrameContext, allowed: bool)
    requires
        call_ensures(FrameContext::binding_is_allowed, (context,), allowed),
    ensures
        allowed ==> context.is_main_frame,
        context.world is Isolated ==> !allowed,
        context.is_main_frame && context.world is Normal ==> allowed,
{
}

/// Initialization data is copied to the byte, for every number of bytes from one to the largest.
pub proof fn law_initialization_data_is_bounded(
    bytes: &[u8],
    copied: Result<InitializationData, ErrorReport>,
)
    requires
        call_ensures(InitializationData::copy_from, (bytes,), copied),
    ensures
        copied is Ok <==> bytes@.len() != 0 && bytes@.len() <= 16384,
        copied matches Ok(data) ==> data@ == bytes@,
        copied matches Err(error) ==> error.code is InvalidRange && error.category is Bootstrap,
{
}

} // verus!
