//! Pairwise global alignment of biological sequences with a k-mer prefilter.
pub mod scoring;
pub mod global;
pub mod kmer;
pub mod pipeline;
