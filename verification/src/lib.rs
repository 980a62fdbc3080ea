//! A small benchmark harness: programs are run round after round, each round in a
//! rotated order, and the timings of the rounds that are kept are collected.

pub mod notsofine;
pub mod workloads;
