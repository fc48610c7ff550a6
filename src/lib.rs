pub mod config;
pub mod errors;
pub mod headers;
pub mod keyed;
pub mod once;
pub mod pipeline;
pub mod port;
pub mod registry;
pub mod render;
pub mod request;
pub mod state;
pub mod text;
pub mod textmap;

pub use config::{RenderMode, RouteConfig};
pub use errors::{AppError, ErrorCode, ErrorPayload, HttpError};
pub use headers::HeaderList;
pub use once::InstallOnce;
pub use pipeline::{BackendRun, CollectingWriter, ResponseWriter, StreamProducer};
pub use registry::{default_routes, RouteRegistry};
pub use render::{BundleProbe, RenderRuntime, RuntimeConfig};
pub use request::{RequestContext, TraceContext};
pub use state::{AppState, HealthReport, ReadinessReport};
pub use textmap::TextMap;
