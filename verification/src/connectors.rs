//! Read-side connectors to SAP systems, process models and the enterprise
//! architecture repository; implemented per backend.
use vstd::prelude::*;
use crate::text::concat2;

verus! {

/// A connector failure.
#[derive(Debug, Clone, PartialEq, Eq)]
pub enum ConnectorError {
    NotFound(String),
    Upstream(String),
    Auth(String),
}

impl ConnectorError {
    /// The failure's text.
    pub fn message(&self) -> (r: String)
        ensures
            r@ == match *self {
                ConnectorError::NotFound(s) => "not found: "@ + s@,
                ConnectorError::Upstream(s) => "upstream error: "@ + s@,
                ConnectorError::Auth(s) => "auth error: "@ + s@,
            },
    {
        match self {
            ConnectorError::NotFound(s) => concat2("not found: ", s.as_str()),
            ConnectorError::Upstream(s) => concat2("upstream error: ", s.as_str()),
            ConnectorError::Auth(s) => concat2("auth error: ", s.as_str()),
        }
    }
}

/// Reads ABAP source by package and object name.
pub trait AbapConnector {
    fn read_object(&self, package: &str, name: &str) -> Result<String, ConnectorError>;
}

/// Reads a process model's BPMN XML.
pub trait BpmnConnector {
    fn read_xml(&self, process_id: &str) -> Result<String, ConnectorError>;
}

/// Reads an enterprise-architecture fact sheet as JSON text.
pub trait LeanixConnector {
    fn read_fact_sheet(&self, id: &str) -> Result<String, ConnectorError>;
}

} // verus!
