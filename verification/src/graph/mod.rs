pub mod community;
pub mod corpus;
pub mod entity;
pub mod raptor;
pub mod hops;
pub mod store;
pub mod laws;
pub mod louvain;
