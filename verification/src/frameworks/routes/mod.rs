//! HTTP route detectors.
use vstd::prelude::*;

use super::{Confidence, Evidence, EvidenceView, evidences_view};
use crate::shared::{Range, opt_text};

pub mod django;
pub mod express;
pub mod fastapi;
pub mod flask;
pub mod go_http;
pub mod nestjs;
pub mod nextjs;
pub mod rust_axum;

verus! {

/// An HTTP route found in a file.
#[derive(Debug)]
pub struct AstRoute {
    pub file_path: String,
    pub language: String,
    pub framework: String,
    pub method: Option<String>,
    pub path: Option<String>,
    pub handler_name: Option<String>,
    pub handler_kind: Option<String>,
    pub range: Range,
    pub path_range: Option<Range>,
    pub handler_range: Option<Range>,
    pub confidence: Confidence,
    pub evidence: Vec<Evidence>,
}

/// A route as plain values.
pub struct RouteView {
    pub file_path: Seq<char>,
    pub language: Seq<char>,
    pub framework: Seq<char>,
    pub method: Option<Seq<char>>,
    pub path: Option<Seq<char>>,
    pub handler_name: Option<Seq<char>>,
    pub handler_kind: Option<Seq<char>>,
    pub range: Range,
    pub path_range: Option<Range>,
    pub handler_range: Option<Range>,
    pub confidence: Confidence,
    pub evidence: Seq<EvidenceView>,
}

/// The plain-value view of a route.
pub open spec fn route_view(r: AstRoute) -> RouteView {
    RouteView {
        file_path: r.file_path@,
        language: r.language@,
        framework: r.framework@,
        method: opt_text(r.method),
        path: opt_text(r.path),
        handler_name: opt_text(r.handler_name),
        handler_kind: opt_text(r.handler_kind),
        range: r.range,
        path_range: r.path_range,
        handler_range: r.handler_range,
        confidence: r.confidence,
        evidence: evidences_view(r.evidence@),
    }
}

impl View for AstRoute {
    type V = RouteView;

    open spec fn view(&self) -> RouteView {
        route_view(*self)
    }
}

/// The plain-value view of a list of routes.
pub open spec fn routes_view(v: Seq<AstRoute>) -> Seq<RouteView> {
    v.map_values(|r: AstRoute| route_view(r))
}

} // verus!
