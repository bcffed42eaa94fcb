//! Existing `/etc/resolver/<tld>` files, so henk never silently overwrites a
//! Valet, Herd or manual resolver.

use vstd::prelude::*;
use vstd::string::*;

use crate::consts::HENK_FILE_HEADER;
use crate::detect::report::{item, row, DetectionItem, ItemView, Status};
use crate::project::env_file::FileState;
use crate::text::{begins, contains, has_text};

verus! {

/// The row of the resolver file. A file without henk's header blocks.
pub open spec fn resolver_of(tld: Seq<char>, file: FileState) -> ItemView {
    let path = "/etc/resolver/"@ + tld;
    match file {
        FileState::Missing => row(
            "/etc/resolver/<tld>"@,
            Status::Okay,
            path + " absent (will be created with sudo)"@,
        ),
        FileState::Unreadable => row(
            "/etc/resolver/<tld>"@,
            Status::Warn,
            path + " exists but is unreadable"@,
        ),
        FileState::Text(body) => if contains(body@, HENK_FILE_HEADER@) {
            row(
                "/etc/resolver/<tld>"@,
                Status::Info,
                path + " exists (managed by henk; reused)"@,
            )
        } else {
            row(
                "/etc/resolver/<tld>"@,
                Status::Block,
                path + " exists but isn't ours — pick a different TLD with --tld"@,
            )
        },
    }
}

/// Is there a resolver file for the TLD, and is it henk's?
pub fn probe(tld: &str, file: &FileState) -> (r: DetectionItem)
    ensures
        r@ == resolver_of(tld@, *file),
{
    let path = "/etc/resolver/".to_owned().concat(tld);
    match file {
        FileState::Missing => item(
            "/etc/resolver/<tld>",
            Status::Okay,
            path.concat(" absent (will be created with sudo)"),
        ),
        FileState::Unreadable => item(
            "/etc/resolver/<tld>",
            Status::Warn,
            path.concat(" exists but is unreadable"),
        ),
        FileState::Text(body) => if has_text(body.as_str(), HENK_FILE_HEADER) {
            item(
                "/etc/resolver/<tld>",
                Status::Info,
                path.concat(" exists (managed by henk; reused)"),
            )
        } else {
            item(
                "/etc/resolver/<tld>",
                Status::Block,
                path.concat(" exists but isn't ours — pick a different TLD with --tld"),
            )
        },
    }
}

/// A resolver file that is not henk's blocks, and only such a file does. The row
/// names the path of the file.
pub proof fn law_foreign_resolvers_block(tld: Seq<char>, file: FileState)
    ensures
        resolver_of(tld, file).status == Status::Block <==> (file matches FileState::Text(body)
            && !contains(body@, HENK_FILE_HEADER@)),
        file is Missing <==> resolver_of(tld, file).status == Status::Okay,
        file is Unreadable <==> resolver_of(tld, file).status == Status::Warn,
        begins(resolver_of(tld, file).detail, "/etc/resolver/"@ + tld),
{
    let path = "/etc/resolver/"@ + tld;
    let d = resolver_of(tld, file).detail;
    assert(d.subrange(0, path.len() as int) =~= path);
}

} // verus!
