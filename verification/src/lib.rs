//! Verified core of a crawler that walks public Steam profiles.
#![allow(unused_imports)]

use vstd::prelude::*;

pub mod crawl;
pub mod fetch;
pub mod games;
pub mod scrape;
pub mod text;
