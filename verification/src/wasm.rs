//! Size checks on a file handed to the in-browser build, answered as JSON.

use vstd::prelude::*;
use crate::text::{nat_text, push_nat, text};

verus! {

pub open spec fn mib_of(byte_len: usize) -> nat {
    (byte_len / 1_048_576) as nat
}

/// The JSON answer on rewriting a file of `byte_len` bytes in the browser:
/// blocked above 1 GiB, a severe warning above 500 MiB, a mild one above
/// 200 MiB, fine otherwise.
pub open spec fn apply_size_text(byte_len: usize) -> Seq<char> {
    if byte_len > 1_073_741_824 {
        "{\"ok\":false,\"warning\":null,\"severity\":\"blocked\",\"error\":\"File exceeds 1 GB. Use the CLI snippet below.\"}"@
    } else if byte_len > 524_288_000 {
        "{\"ok\":true,\"warning\":\"Large file ("@ + nat_text(mib_of(byte_len))
            + " MB). Rewriting this size may fail on memory-constrained browsers; if it fails, use the CLI snippet instead.\",\"severity\":\"severe\",\"error\":null}"@
    } else if byte_len > 209_715_200 {
        "{\"ok\":true,\"warning\":\"Large file ("@ + nat_text(mib_of(byte_len))
            + " MB). Rewrite may take 30+ seconds and requires up to 2 GB of browser memory.\",\"severity\":\"mild\",\"error\":null}"@
    } else {
        "{\"ok\":true,\"warning\":null,\"severity\":null,\"error\":null}"@
    }
}

pub fn check_apply_file_size(byte_len: usize) -> (s: String)
    ensures
        s@ == apply_size_text(byte_len),
{
    if byte_len > 1_073_741_824 {
        return text(
            "{\"ok\":false,\"warning\":null,\"severity\":\"blocked\",\"error\":\"File exceeds 1 GB. Use the CLI snippet below.\"}",
        );
    }
    if byte_len > 524_288_000 {
        let mut s = text("{\"ok\":true,\"warning\":\"Large file (");
        push_nat(&mut s, (byte_len / 1_048_576) as u128);
        s.append(
            " MB). Rewriting this size may fail on memory-constrained browsers; if it fails, use the CLI snippet instead.\",\"severity\":\"severe\",\"error\":null}",
        );
        return s;
    }
    if byte_len > 209_715_200 {
        let mut s = text("{\"ok\":true,\"warning\":\"Large file (");
        push_nat(&mut s, (byte_len / 1_048_576) as u128);
        s.append(
            " MB). Rewrite may take 30+ seconds and requires up to 2 GB of browser memory.\",\"severity\":\"mild\",\"error\":null}",
        );
        return s;
    }
    text("{\"ok\":true,\"warning\":null,\"severity\":null,\"error\":null}")
}

/// The JSON answer on analysing a file of `byte_len` bytes in the browser:
/// refused above 1 GiB, a warning above 200 MiB, fine otherwise.
pub open spec fn file_size_text(byte_len: usize) -> Seq<char> {
    if byte_len > 1_073_741_824 {
        "{\"ok\":false,\"warning\":null,\"error\":\"File exceeds 1 GB. Use the autoparq CLI for large files.\"}"@
    } else if byte_len > 209_715_200 {
        "{\"ok\":true,\"warning\":\"Large file ("@ + nat_text(mib_of(byte_len))
            + " MB). Analysis may take 10\\u201330 seconds.\",\"error\":null}"@
    } else {
        "{\"ok\":true,\"warning\":null,\"error\":null}"@
    }
}

pub fn check_file_size(byte_len: usize) -> (s: String)
    ensures
        s@ == file_size_text(byte_len),
{
    if byte_len > 1_073_741_824 {
        return text(
            "{\"ok\":false,\"warning\":null,\"error\":\"File exceeds 1 GB. Use the autoparq CLI for large files.\"}",
        );
    }
    if byte_len > 209_715_200 {
        let mut s = text("{\"ok\":true,\"warning\":\"Large file (");
        push_nat(&mut s, (byte_len / 1_048_576) as u128);
        s.append(" MB). Analysis may take 10\\u201330 seconds.\",\"error\":null}");
        return s;
    }
    text("{\"ok\":true,\"warning\":null,\"error\":null}")
}

} // verus!
