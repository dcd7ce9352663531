//! Routing of natural-language instructions to daemon tools.

pub mod breaker_laws;
pub mod call_laws;
pub mod ceo_audit;
pub mod ceo_dispatch;
pub mod ceo_fallback;
pub mod ceo_helpers;
pub mod ceo_routes;
pub mod engine;
pub mod http;
pub mod json;
pub mod keyword_laws;
pub mod laws;
pub mod menu_laws;
pub mod routing_laws;
pub mod text;
pub mod types;
pub mod value_laws;

pub use engine::CeoEngine;
pub use types::{CeoResponse, RoutingResult, ToolMenuEntry};
