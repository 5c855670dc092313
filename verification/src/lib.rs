//! Wind turbine operations-and-maintenance knowledge rules: query
//! normalization, fault-graph lookup, skill dispatch, document
//! classification and report helpers.
pub mod text;
pub mod normalize;
pub mod timestamp;
pub mod graph;
pub mod report;
pub mod skill;
pub mod confidence;
pub mod chunk;
pub mod graph_lookup;
pub mod config;
pub mod advice;
pub mod document;
pub mod connectors;
pub mod ranking;
pub mod scada_csv;
pub mod memory;
pub mod quality;
pub mod query;
pub mod risk;
pub mod inspection;
pub mod analysis;
pub mod skill_output;
pub mod service;
pub mod document_text;
pub mod search;
pub mod desktop;
pub mod json;
pub mod wind_tools;
pub mod settings;
pub mod doctor;
pub mod runtime_events;
pub mod workspace;
pub mod rag_client;
pub mod ingest;
