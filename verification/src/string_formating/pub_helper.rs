//! The version of a tag, the asset id and version of a file, and the text of a log entry.
use vstd::prelude::*;

use crate::config::CommitMetadata;
use crate::string_formating::helper::{
    assetid_version_of_log, get_assetid_version_path, invalid_tag_text, last_sep, last_sep_exec,
    pair_result_view,
};
use crate::text::{chars_of, concat2, string_of_range};

verus! {

/// The Markdown entry of one version in an asset's log, in the layout where the message
/// heading is not a list item.
pub open spec fn log_entry_text(metadata: CommitMetadata, version: Seq<char>) -> Seq<char> {
    "## "@ + version + "\n- **Hash (full):** "@ + metadata.commit_hash@
        + "\n- **Hash (short):** "@ + metadata.abbreviated_hash@ + "\n- **Author:** "@
        + metadata.author_name@ + "\n- **Created At:** "@ + metadata.author_date@
        + "\n- **Summary:** "@ + metadata.subject@ + "\n\n**Message:**\n"@ + metadata.body@
        + "\n\n---\n\n\n"@
}

/// Formats the commit metadata of `version` as an entry of the asset's log.
pub fn format_commit_metadata(metadata: CommitMetadata, version: &str) -> (r: String)
    ensures
        r@ == log_entry_text(metadata, version@),
{
    let mut s = String::from_str("## ");
    s.append(version);
    s.append("\n- **Hash (full):** ");
    s.append(metadata.commit_hash.as_str());
    s.append("\n- **Hash (short):** ");
    s.append(metadata.abbreviated_hash.as_str());
    s.append("\n- **Author:** ");
    s.append(metadata.author_name.as_str());
    s.append("\n- **Created At:** ");
    s.append(metadata.author_date.as_str());
    s.append("\n- **Summary:** ");
    s.append(metadata.subject.as_str());
    s.append("\n\n**Message:**\n");
    s.append(metadata.body.as_str());
    s.append("\n\n---\n\n\n");
    s
}

/// The version of a tag: `'v'` followed by what comes after its last `"-v"`.
pub open spec fn tag_version(tag: Seq<char>) -> Option<Seq<char>> {
    match last_sep(tag) {
        Some(i) => Some(seq!['v'] + tag.skip(i + 2)),
        None => None,
    }
}

/// The version of a tag `<asset_id>-v<version>`, with its leading `'v'`.
pub fn get_version(tag: &str) -> (r: Result<String, String>)
    ensures
        match tag_version(tag@) {
            Some(v) => r matches Ok(rv) && rv@ == v,
            None => r matches Err(e) && e@ == invalid_tag_text(tag@),
        },
{
    let v = chars_of(tag);
    match last_sep_exec(&v) {
        None => Err(concat2("Tag format is invalid: ", tag)),
        Some(i) => {
            let mut version = String::new();
            version.push('v');
            let n = v.len();
            let rest = string_of_range(&v, i + 2, n);
            version.append(rest.as_str());
            assert(version@ =~= seq!['v'] + tag@.skip(i + 2));
            Ok(version)
        },
    }
}

/// The asset id and version of a file, from the output of
/// `git log -n 1 --oneline --decorate -- <file>` for it.
pub fn get_assetid_version(git_history: &str) -> (r: Result<(String, String), String>)
    ensures
        pair_result_view(r) == assetid_version_of_log(git_history@),
{
    get_assetid_version_path(git_history)
}

} // verus!
