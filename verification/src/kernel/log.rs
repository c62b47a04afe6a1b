//! Tagged console log lines: `[LEVEL][scope] message`.
use vstd::prelude::*;
use vstd::string::*;
use crate::drivers::uart::{self, crlf, line_bytes};

verus! {

/// The bytes of a log line with `level`, `scope` and `message`.
pub open spec fn log_line(level: Seq<u8>, scope: Seq<u8>, message: Seq<u8>) -> Seq<u8> {
    crlf("[".spec_bytes()).add(crlf(level)).add(crlf("][".spec_bytes())).add(crlf(scope)).add(
        crlf("] ".spec_bytes()),
    ).add(line_bytes(message))
}

fn prefix(level: &str, scope: &str) -> (r: Vec<u8>)
    ensures
        r@ == crlf("[".spec_bytes()).add(crlf(level.spec_bytes())).add(crlf("][".spec_bytes())).add(
            crlf(scope.spec_bytes()),
        ).add(crlf("] ".spec_bytes())),
{
    let mut out = uart::write_str("[");
    let mut a = uart::write_str(level);
    out.append(&mut a);
    let mut b = uart::write_str("][");
    out.append(&mut b);
    let mut c = uart::write_str(scope);
    out.append(&mut c);
    let mut d = uart::write_str("] ");
    out.append(&mut d);
    out
}

pub fn info(scope: &str, message: &str) -> (r: Vec<u8>)
    ensures
        r@ == log_line("INFO".spec_bytes(), scope.spec_bytes(), message.spec_bytes()),
{
    let mut out = prefix("INFO", scope);
    let mut line = uart::write_line(message);
    out.append(&mut line);
    out
}

pub fn ok(scope: &str, message: &str) -> (r: Vec<u8>)
    ensures
        r@ == log_line("OK".spec_bytes(), scope.spec_bytes(), message.spec_bytes()),
{
    let mut out = prefix("OK", scope);
    let mut line = uart::write_line(message);
    out.append(&mut line);
    out
}

pub fn fail(scope: &str, message: &str) -> (r: Vec<u8>)
    ensures
        r@ == log_line("FAIL".spec_bytes(), scope.spec_bytes(), message.spec_bytes()),
{
    let mut out = prefix("FAIL", scope);
    let mut line = uart::write_line(message);
    out.append(&mut line);
    out
}

} // verus!
