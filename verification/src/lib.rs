//! Diagnostic engine for Kubernetes client configuration files: merges a list
//! of kubeconfig sources under last-wins precedence, detects duplicate names
//! across sources, resolves contexts to their cluster and user records, and
//! classifies the outcomes of the layered connectivity and authentication
//! probes that a caller runs against the target cluster.

pub mod config;
pub mod duplicates;
pub mod merge;
pub mod probe;
pub mod report;
pub mod resolve;
pub mod style;
