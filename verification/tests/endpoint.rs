use std::cell::{Cell, RefCell};
use std::rc::Rc;

use nwipc::bootstrap::schema::{BootstrapEnvelope, EndpointRole, ProviderKind};
use nwipc::data_plane::channel_transport::{SignalSender, WakeSource};
use nwipc::data_plane::mapped_ring::{MappedConsumer, MappedProducer};
use nwipc::domain::error::{ErrorCode, ErrorReport};
use nwipc::domain::types::{Generation, SessionId};
use nwipc::facade::configuration::Configuration;
use nwipc::facade::record::SessionHandle;
use nwipc::facade::session::{BootstrapPair, MacosPreparer, ProviderSelection};
use nwipc::macos::configuration::{
    plan_endpoint, production_capabilities, ChannelConfiguration,
};
use nwipc::macos::prepared::{attach_endpoint, PreparedMacosTransport};
use nwipc::macos::renderer_transport::{MacosRendererTransport, RendererExpectation};
use nwipc::macos::transport::{MacosEndpointTransport, ProtectedChannel};
use nwipc::memory::api::{MappedRegion, MappingAccess, SharedMemoryProvider};
use nwipc::memory::iosurface::IoSurfaceDescriptor;
use nwipc::observability::diagnostics::{MemoryBackend, SignalBackend};
use nwipc::peer::port::{NativePort, PeerExpectation, PortEvent};
use nwipc::renderer::{RendererEvent, RendererTransport, SendDisposition, TransportDiagnostics};

#[derive(Clone)]
struct SharedRegion {
    bytes: Rc<RefCell<Vec<u8>>>,
}

impl MappedRegion for SharedRegion {
    fn len(&self) -> usize {
        self.bytes.borrow().len()
    }

    fn access(&self) -> MappingAccess {
        MappingAccess::ReadWrite
    }

    fn read(&self, offset: usize, length: usize) -> Result<Vec<u8>, ErrorReport> {
        Ok(self.bytes.borrow()[offset..offset + length].to_vec())
    }

    fn write(&mut self, offset: usize, input: &[u8]) -> Result<(), ErrorReport> {
        self.bytes.borrow_mut()[offset..offset + input.len()].copy_from_slice(input);
        Ok(())
    }

    fn load_u32_acquire(&self, offset: usize) -> Result<u32, ErrorReport> {
        let bytes = self.read(offset, 4)?;
        Ok(u32::from_le_bytes([bytes[0], bytes[1], bytes[2], bytes[3]]))
    }

    fn store_u32_release(&mut self, offset: usize, value: u32) -> Result<(), ErrorReport> {
        self.write(offset, &value.to_le_bytes())
    }
}

#[derive(Default)]
struct Surfaces {
    made: RefCell<Vec<SharedRegion>>,
}

impl SharedMemoryProvider for Surfaces {
    type Descriptor = IoSurfaceDescriptor;
    type Mapping = SharedRegion;

    fn create(
        &self,
        byte_len: usize,
        generation: Generation,
    ) -> Result<(SharedRegion, IoSurfaceDescriptor), ErrorReport> {
        let region = SharedRegion {
            bytes: Rc::new(RefCell::new(vec![0; byte_len])),
        };
        self.made.borrow_mut().push(region.clone());
        let surface_id = self.made.borrow().len() as u32;
        Ok((
            region,
            IoSurfaceDescriptor {
                surface_id,
                byte_len,
                generation,
            },
        ))
    }

    fn attach(
        &self,
        descriptor: &IoSurfaceDescriptor,
        _expected_generation: Generation,
        _access: MappingAccess,
    ) -> Result<SharedRegion, ErrorReport> {
        Ok(self.made.borrow()[descriptor.surface_id as usize - 1].clone())
    }
}

type Script = Rc<RefCell<Option<Box<dyn FnOnce()>>>>;

#[derive(Clone)]
struct Signal {
    posts: Rc<Cell<u32>>,
    during_wait: Script,
}

impl Signal {
    fn new() -> Self {
        Signal {
            posts: Rc::new(Cell::new(0)),
            during_wait: Rc::new(RefCell::new(None)),
        }
    }
}

impl SignalSender for Signal {
    fn notify(&mut self) -> Result<(), ErrorReport> {
        self.posts.set(self.posts.get() + 1);
        Ok(())
    }
}

impl WakeSource for Signal {
    type Cause = ();

    fn wait_timeout(&mut self, _nanos: u128) -> Result<(), ErrorReport> {
        let script = self.during_wait.borrow_mut().take();
        if let Some(script) = script {
            script();
        }
        Ok(())
    }

    fn record_drain(&mut self, _cause: (), _progressed: bool) {}

    fn cancel(&mut self) {}

    fn counters(&self) -> TransportDiagnostics {
        TransportDiagnostics {
            primary_wakeups: u64::from(self.posts.get()),
            polling_wakeups: 0,
            coalesced_wakeups: 0,
            polling_recoveries: 0,
            signal_failures: 0,
        }
    }
}

type Channel = ProtectedChannel<
    MappedProducer<SharedRegion>,
    MappedConsumer<SharedRegion>,
    Signal,
    Signal,
>;
type PeerTransport = MacosEndpointTransport<
    MappedProducer<SharedRegion>,
    MappedConsumer<SharedRegion>,
    Signal,
    Signal,
>;

fn handle() -> SessionHandle {
    SessionHandle {
        session_id: SessionId::from_u128(7).unwrap(),
        generation: Generation::new(3).unwrap(),
    }
}

fn prepared(
    provider: &Surfaces,
) -> (PreparedMacosTransport<SharedRegion>, BootstrapPair) {
    let preparer = MacosPreparer {
        configuration: Configuration::default(),
    };
    preparer
        .prepare(
            handle(),
            ProviderSelection::production(),
            provider,
            b"renderer signal",
            b"peer signal",
            Some([0x42; 32]),
        )
        .ok()
        .unwrap()
}

fn attach(
    provider: &Surfaces,
    envelope: &BootstrapEnvelope,
    role: EndpointRole,
    outbound_signal: &Signal,
    inbound_signal: &Signal,
) -> Channel {
    let plan = plan_endpoint(envelope, role).ok().unwrap();
    let generation = handle().generation;
    let outbound = provider
        .attach(&plan.outbound, generation, MappingAccess::ReadWrite)
        .unwrap();
    let inbound = provider
        .attach(&plan.inbound, generation, MappingAccess::ReadWrite)
        .unwrap();
    attach_endpoint(
        &plan,
        envelope,
        role,
        outbound,
        inbound,
        outbound_signal.clone(),
        outbound_signal.clone(),
        inbound_signal.clone(),
        inbound_signal.clone(),
    )
    .ok()
    .unwrap()
}

#[test]
fn prepared_transport_exposes_iosurface_and_darwin_provider_tags() {
    let prepared = PreparedMacosTransport::prepare(
        &Surfaces::default(),
        SessionId::from_u128(7).unwrap(),
        Generation::new(3).unwrap(),
        ChannelConfiguration::default(),
        b"renderer",
        b"peer",
    )
    .ok()
    .unwrap();

    assert!(prepared.memory_descriptor().ok().unwrap().provider() == ProviderKind::IoSurface);
    assert!(prepared.signal_descriptor().ok().unwrap().provider() == ProviderKind::Hybrid);
    assert_eq!(prepared.mapping_count(), 2);
}

#[test]
fn other_providers_are_not_prepared() {
    let preparer = MacosPreparer {
        configuration: Configuration::default(),
    };
    let selection = ProviderSelection {
        memory: MemoryBackend::IoSurface,
        signal: SignalBackend::Hybrid,
    };
    assert_eq!(
        preparer
            .prepare(
                handle(),
                selection,
                &Surfaces::default(),
                b"",
                b"",
                Some([1; 32])
            )
            .err()
            .unwrap()
            .code(),
        ErrorCode::Unsupported
    );
    assert_eq!(
        preparer
            .prepare(
                handle(),
                ProviderSelection::production(),
                &Surfaces::default(),
                b"",
                b"",
                None
            )
            .err()
            .unwrap()
            .context(),
        "bootstrap randomness"
    );
}

#[test]
fn renderer_and_peer_connect_over_protected_regions() {
    let provider = Rc::new(Surfaces::default());
    let (_transport, pair) = prepared(&provider);
    let BootstrapPair { peer, renderer } = pair;
    let renderer_to_peer = Signal::new();
    let peer_to_renderer = Signal::new();
    let port: Rc<RefCell<Option<NativePort<PeerTransport>>>> = Rc::new(RefCell::new(None));

    let renderer_channel = attach(
        &provider,
        &renderer,
        EndpointRole::Renderer,
        &renderer_to_peer,
        &peer_to_renderer,
    );
    let peer_channel = attach(
        &provider,
        &peer,
        EndpointRole::Peer,
        &peer_to_renderer,
        &renderer_to_peer,
    );
    let accepted = port.clone();
    *peer_to_renderer.during_wait.borrow_mut() = Some(Box::new(move || {
        let opened = NativePort::accept(
            peer,
            PeerExpectation {
                session_id: handle().session_id,
                generation: handle().generation,
                protocol: 1,
            },
            MacosEndpointTransport::attach(peer_channel),
            Configuration::default().maximum_message as usize,
            production_capabilities(),
        );
        *accepted.borrow_mut() = opened.ok();
    }));
    let mut renderer = MacosRendererTransport::attach(
        renderer_channel,
        renderer,
        RendererExpectation {
            session_id: handle().session_id,
            generation: handle().generation,
            protocol: 1,
        },
    )
    .ok()
    .unwrap();
    let mut port = port.borrow_mut().take().unwrap();

    let fragmented = vec![0x5a; Configuration::default().maximum_inline_message as usize + 1];
    for payload in [b"production".to_vec(), Vec::new(), fragmented] {
        assert_eq!(renderer.send(&payload).unwrap(), SendDisposition::Sent);
        assert_eq!(
            port.try_receive().unwrap(),
            Some(PortEvent::Message(payload.clone()))
        );
        port.try_send(&payload).unwrap();
        assert_eq!(
            renderer.poll().unwrap(),
            Some(RendererEvent::Message(payload))
        );
    }
    assert_eq!(renderer.poll().unwrap(), None);
    assert_eq!(renderer.buffered_amount().unwrap(), 0);
    let shared: Vec<u8> = provider
        .made
        .borrow()
        .iter()
        .flat_map(|region| region.bytes.borrow().clone())
        .collect();
    assert!(!shared
        .windows(b"production".len())
        .any(|bytes| bytes == b"production"));
    assert_eq!(
        renderer
            .send(&vec![
                0;
                Configuration::default().maximum_message as usize + 1
            ])
            .unwrap_err()
            .code(),
        ErrorCode::MessageTooLarge
    );
    renderer.close().unwrap();
    assert_eq!(port.try_receive().unwrap(), Some(PortEvent::Closed));
    assert_eq!(
        renderer.send(b"late").unwrap_err().code(),
        ErrorCode::Closed
    );
}

#[test]
fn altered_records_are_not_authentic() {
    let provider = Surfaces::default();
    let (_transport, pair) = prepared(&provider);
    let renderer_to_peer = Signal::new();
    let peer_to_renderer = Signal::new();
    let mut renderer = attach(
        &provider,
        &pair.renderer,
        EndpointRole::Renderer,
        &renderer_to_peer,
        &peer_to_renderer,
    );
    let mut peer = attach(
        &provider,
        &pair.peer,
        EndpointRole::Peer,
        &peer_to_renderer,
        &renderer_to_peer,
    );
    assert!(renderer.send_frame(b"frame").is_ok());
    let region = provider.made.borrow()[0].clone();
    let altered = region.bytes.borrow()[300] ^ 1;
    region.bytes.borrow_mut()[300] = altered;
    assert_eq!(
        peer.receive().unwrap_err().code(),
        ErrorCode::AuthenticationFailed
    );
}
