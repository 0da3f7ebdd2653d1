//! Records of the remote storage service: the disk, its owner, resources
//! and their listings, and transfer descriptors, together with the listing
//! lines the client prints for them.

use std::collections::HashMap;
use vstd::prelude::*;
use crate::textfmt::{dec_str, pad_right, padded_right, u64_to_string};

verus! {

/// The owner of the remote disk.
pub struct YaUser {
    pub country: String,
    pub login: String,
    pub display_name: String,
    pub uid: String,
}

/// The remote disk's account-level description.
pub struct YaDisk {
    pub unlimited_autoupload_enabled: bool,
    pub max_file_size: u64,
    pub total_space: u64,
    pub trash_size: u64,
    pub is_paid: bool,
    pub used_space: u64,
    pub system_folders: HashMap<String, String>,
    pub user: YaUser,
    pub revision: u64,
}

/// Camera metadata of a media resource.
pub struct Exif {
    pub date_time: String,
}

/// Comment-thread identifiers of a resource.
pub struct CommentIds {
    pub private_resource: String,
    pub public_resource: String,
}

/// One remote resource. The `kind` field carries the service's `type`
/// value, which cannot keep its name here.
pub struct Resource {
    pub antivirus_status: String,
    pub resource_id: String,
    pub file: String,
    pub size: u64,
    pub photoslice_time: String,
    pub _embedded: ResourceList,
    pub exif: Exif,
    pub media_type: String,
    pub preview: String,
    pub kind: String,
    pub mime_type: String,
    pub revision: u64,
    pub public_url: String,
    pub path: String,
    pub md5: String,
    pub public_key: String,
    pub sha256: String,
    pub name: String,
    pub created: String,
    pub modified: String,
}

/// A page of resources.
pub struct ResourceList {
    pub sort: String,
    pub items: Vec<Resource>,
    pub limit: u64,
    pub offset: u64,
    pub path: String,
    pub total: u64,
}

impl Default for ResourceList {
    /// An untouched listing: marker strings, no items, zero counts.
    fn default() -> (r: Self)
        ensures
            r.sort@ == "_Uninitialized"@,
            r.items@.len() == 0,
            r.limit == 0,
            r.offset == 0,
            r.path@ == "_Uninitialized"@,
            r.total == 0,
    {
        ResourceList {
            sort: "_Uninitialized".to_owned(),
            items: Vec::new(),
            limit: 0,
            offset: 0,
            path: "_Uninitialized".to_owned(),
            total: 0,
        }
    }
}

/// Descriptor of a pending download.
pub struct DownloadInfo {
    pub href: String,
    pub method: String,
    pub templated: bool,
}

/// Descriptor of a pending upload.
pub struct UploadInfo {
    pub operation_id: String,
    pub href: String,
    pub method: String,
    pub templated: bool,
}

/// The listing line printed for one resource: its kind, its name padded to
/// thirty characters, and its media type and time stamps.
pub open spec fn resource_line(r: Resource) -> Seq<char> {
    " \u{21b3} ("@ + r.kind@ + ") "@ + padded_right(r.name@, 30) + " Type: "@ + r.media_type@
        + " CTime: "@ + r.created@ + " MTime: "@ + r.modified@
}

/// The listing lines for `items`, one per resource, joined by line breaks.
pub open spec fn resource_report(items: Seq<Resource>) -> Seq<char>
    decreases items.len(),
{
    if items.len() == 0 {
        Seq::<char>::empty()
    } else if items.len() == 1 {
        resource_line(items[0])
    } else {
        resource_report(items.drop_last()) + "\n"@ + resource_line(items.last())
    }
}

/// Render the listing line for one resource.
pub fn format_resource_line(r: &Resource) -> (line: String)
    ensures
        line@ == resource_line(*r),
{
    let mut out = " \u{21b3} (".to_owned();
    out.append(r.kind.as_str());
    out.append(") ");
    out.append(pad_right(r.name.as_str(), 30).as_str());
    out.append(" Type: ");
    out.append(r.media_type.as_str());
    out.append(" CTime: ");
    out.append(r.created.as_str());
    out.append(" MTime: ");
    out.append(r.modified.as_str());
    out
}

/// Render the listing for `items`, line by line.
#[verifier::loop_isolation(false)]
pub fn format_resource_report(items: &Vec<Resource>) -> (report: String)
    ensures
        report@ == resource_report(items@),
{
    let mut out = String::new();
    let n: usize = items.len();
    let mut i: usize = 0;
    while i < n
        invariant
            0 <= i <= n,
            out@ == resource_report(items@.take(i as int)),
        decreases n - i,
    {
        if i > 0 {
            out.append("\n");
        }
        let line = format_resource_line(&items[i]);
        out.append(line.as_str());
        proof {
            reveal_strlit("\n");
            assert(items@.take(i as int + 1).drop_last() =~= items@.take(i as int));
            assert(items@.take(i as int + 1).last() == items@[i as int]);
            if i > 0 {
                assert(items@.take(i as int + 1).len() > 1);
            } else {
                assert(items@.take(1int)[0] == items@[0]);
            }
            assert(out@ =~= resource_report(items@.take(i as int + 1)));
        }
        i += 1;
    }
    proof {
        assert(items@.take(n as int) =~= items@);
    }
    out
}

/// The header printed for one listed resource: name, path, download
/// address and size.
pub open spec fn resource_summary(r: Resource) -> Seq<char> {
    "Name: "@ + r.name@ + "\nPath: "@ + r.path@ + "\nFile: "@ + r.file@ + "\nSize: "@ + dec_str(
        r.size as nat,
    )
}

/// Render the header for one listed resource.
pub fn format_resource_summary(r: &Resource) -> (line: String)
    ensures
        line@ == resource_summary(*r),
{
    let mut out = "Name: ".to_owned();
    out.append(r.name.as_str());
    out.append("\nPath: ");
    out.append(r.path.as_str());
    out.append("\nFile: ");
    out.append(r.file.as_str());
    out.append("\nSize: ");
    let size = u64_to_string(r.size);
    out.append(size.as_str());
    out
}

} // verus!
