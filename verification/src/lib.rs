//! A flow-classification engine for IPv4: a table of access-control rules,
//! each a pair of address prefixes with port patterns and an action, and a
//! classifier that decides which rule wins a packet.
//!
//! A rule is inserted under three names: its source prefix in the source
//! index, its destination prefix in the destination index, and its masked
//! addresses and port patterns in the exact-match table, where the action
//! lives. A packet is classified by a cascade of four steps, from explicit
//! ports to wildcards; each step resolves the two addresses to their most
//! specific registered prefixes and asks the exact-match table for the pair.
//!
//! The table means the sequence of rules inserted into it ([`model`]), every
//! function says what it returns in terms of that sequence, and [`laws`]
//! proves the precedence rules that follow. Verus checks all of it, except
//! for what [`cidr`] takes on trust about `ipnet`.

pub mod octets;
pub mod mask;
pub mod index;
pub mod flow;
pub mod cidr;
pub mod model;
pub mod table;
pub mod shared;
pub mod laws;
