//! The dashboard web server's configuration; serving the uploaded files is the
//! platform's web server's work.
use vstd::prelude::*;

verus! {

#[derive(Debug, Clone, PartialEq, Eq)]
pub struct WebServerConfig {
    pub name: String,
}

} // verus!
