//! Process execution, capture, observation and daemon wire logic, with every
//! decision stated as a contract and proved.

pub mod capture;
pub mod cleanup;
pub mod client;
pub mod content_hash;
pub mod daemon;
pub mod daemon_frame_v1;
pub mod daemon_registration;
pub mod descendant_monitor;
pub mod env_vars;
pub mod environment;
pub mod errors;
pub mod frame_v1;
pub mod host;
pub mod independent_broker_transport;
pub mod independent_command;
pub mod independent_spawn;
pub mod independent_systemd;
pub mod independent_transport;
pub mod independent_windows;
pub mod independent_windows_helper;
pub mod keyed;
pub mod maintenance;
pub mod native_path;
pub mod native_process;
pub mod observer;
pub mod output_log;
pub mod probe;
pub mod process_output_shutdown;
pub mod protobuf;
pub mod text;
pub mod types;
pub mod unix_path;
pub mod windows_path;
pub mod wire;

pub use daemon::telemetry;
pub use environment::EnvironmentPolicy;
pub use native_process::NativeProcess;
pub use observer::process_watch::{
    CaptureSource, DumpResult, ObservationGrade, ObservationPolicy, ProcessEvent, ProcessEventKind,
    ProcessIdentity, ProcessObservation, ProcessObservationCapabilities, ProcessObservationError,
    ProcessWatch, ProcessWatchConfigurationError, ProcessWatchCursor, ProcessWatchGap,
    ProcessWatchMatch, ProcessWatchRead, ProcessWatchSubscriber, StackCapture, StackDump,
};
pub use observer::{
    CapabilitySupport, CategoryCapability, EventCategory, ObserverCapabilities, ObserverConfig,
    ObserverEvent, ObserverEventKind, ObserverSubscriber,
};
pub use output_log::{
    CursorRead, OutputCursor, OutputLog, OutputRecord, SharedOutputCursor, SharedOutputLog,
};
pub use types::{
    CommandSpec, ProcessConfig, ProcessError, ReadStatus, StderrMode, StdinMode, StreamEvent,
    StreamKind,
};
