//! The fixed strings of the command surface: the greeting, the
//! connection-status line, the execution-success token and the health-check
//! statement.

use vstd::prelude::*;
use vstd::string::*;

verus! {

/// The connectivity smoke test: greets the caller by name.
pub fn greet(name: &str) -> (r: String)
    ensures
        r@ == "Hello, "@ + name@ + "! You've been greeted from Rust!"@,
{
    let mut r = String::from_str("Hello, ");
    r.append(name);
    r.append("! You've been greeted from Rust!");
    r
}

/// The status line reported after a successful connection test, carrying the
/// server's version string.
pub fn connection_status(version: &str) -> (r: String)
    ensures
        r@ == "Connected to: "@ + version@,
{
    let mut r = String::from_str("Connected to: ");
    r.append(version);
    r
}

/// The fixed token returned after a statement was executed for its side
/// effect only.
pub fn execution_success_message() -> (r: String)
    ensures
        r@ == "Execution successful"@,
{
    String::from_str("Execution successful")
}

/// The fixed statement the connection test runs against the server.
pub fn health_check_statement() -> (r: String)
    ensures
        r@ == "SELECT version()"@,
{
    String::from_str("SELECT version()")
}

} // verus!
