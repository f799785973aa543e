//! Impersonation server core for A9 V720 class IP cameras: the 20-byte framing
//! codec, the streaming handshake state machine, the video frame reassembler and
//! the retransmission acknowledgement bucket.
pub mod wire;
pub mod codec;
pub mod text;
pub mod config;
pub mod messages;
pub mod reassembly;
pub mod bucket;
pub mod handshake;
pub mod session;
pub mod registry;
pub mod bootstrap;

pub use config::AppConfig;
pub use bootstrap::{pick_stream_port, advertised_stream_port, register_devices_body, confirm_body, ConfigData, ConfigCheckResponse, STREAM_PORT_MIN, STREAM_PORT_MAX};
pub use registry::{CameraManager, UdpOutcome};
pub use session::{ProtocolMessage, CameraSession, serialize_registration_response};
pub use handshake::{ProtocolState, ProbeState, OperatorCommand, Reply, ControlEvent, StepContext, Handshake};
pub use bucket::RetransmissionBucket;
pub use reassembly::{StreamBuffer, DEFAULT_RING_CAPACITY};
pub use messages::{RegistrationResponse, DeviceStatusRequest, Code50Request, UdpProbeResponse, NatProbeRequest, ForwardContent, ForwardCommand, control_frame};
pub use codec::{ProtocolHeader, CodecError, Frame, FrameKind, RetransmissionConfirm};
