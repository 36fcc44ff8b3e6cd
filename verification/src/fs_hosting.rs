//! Filesystem hosting engine: the publish pipeline's decisions.
//!
//! Publishing writes a file set into a target directory while reporting
//! progress through a job record.  The target directory, the messages, and
//! every job-record change are computed here; the shell that owns the disk
//! performs the writes, calls back on each outcome, and closes the job.

use vstd::prelude::*;

use crate::connector::ConnectorOptions;
use crate::connector::ConnectorType;
use crate::connector::ConnectorUser;
use crate::connector::file_icon;
use crate::connector::user_icon;
use crate::jobs::JobV;
use crate::jobs::PublicationJobData;
use crate::sys::system_username;
use crate::text::append_str;
use crate::text::concat2;
use crate::text::spec_digits;
use crate::text::usize_to_string;
use crate::traits::ConnectorInfo;
use crate::traits::hosting_to_connector_data;

verus! {

/// Filesystem hosting engine.
///
/// Each site publishes into its own subdirectory of the data path, unless a
/// shared hosting path is configured, in which case every site publishes
/// there.
pub struct FsHosting {
    /// Path website data is stored under; used to compute per-site publish
    /// directories.
    pub data_path: String,
    /// Shared hosting path, when one is configured.
    pub hosting_path: Option<String>,
}

impl FsHosting {
    /// Create a new filesystem hosting engine.
    pub fn new(data_path: String, hosting_path: Option<String>) -> (r: Self)
        ensures
            r.data_path@ == data_path@,
            r.hosting_path == hosting_path,
    {
        FsHosting { data_path, hosting_path }
    }

    /// The directory a website publishes into: the shared hosting path when
    /// one is configured, the site's own public directory otherwise.
    pub fn publish_dir(&self, website_id: &str) -> (r: String)
        ensures
            (match self.hosting_path {
                Option::Some(p) => r@ == p@,
                Option::None => r@ == self.data_path@ + "/"@ + website_id@ + "/"@ + "public"@,
            }),
    {
        match &self.hosting_path {
            Option::Some(p) => p.clone(),
            Option::None => {
                let mut r: String = self.data_path.clone();
                append_str(&mut r, "/");
                append_str(&mut r, website_id);
                append_str(&mut r, "/");
                append_str(&mut r, "public");
                r
            },
        }
    }

    /// The conventional address of a published site: its entry document in
    /// the publish directory.  Existence is not checked.
    pub fn get_url(&self, website_id: &str) -> (r: String)
        ensures
            (match self.hosting_path {
                Option::Some(p) => r@ == "file://"@ + p@ + "/"@ + "index.html"@,
                Option::None => r@ == "file://"@ + self.data_path@ + "/"@ + website_id@ + "/"@
                    + "public"@ + "/"@ + "index.html"@,
            }),
    {
        let dir: String = self.publish_dir(website_id);
        let mut r: String = "file://".to_owned();
        append_str(&mut r, dir.as_str());
        append_str(&mut r, "/");
        append_str(&mut r, "index.html");
        r
    }

    /// The message a publish job opens with.
    pub fn publish_start_message(&self) -> (r: String)
        ensures
            r@ == "Publishing to File system hosting"@,
    {
        "Publishing to File system hosting".to_owned()
    }

    /// The log line recording how many files go where.
    pub fn publish_files_message(&self, count: usize, dir: &str) -> (r: String)
        ensures
            r@ == "Publishing "@ + spec_digits(count as nat) + " files to "@ + dir@,
    {
        let mut r: String = "Publishing ".to_owned();
        let digits: String = usize_to_string(count);
        append_str(&mut r, digits.as_str());
        append_str(&mut r, " files to ");
        append_str(&mut r, dir);
        proof {
            assert(r@ =~= "Publishing "@ + spec_digits(count as nat) + " files to "@ + dir@);
        }
        r
    }

    /// The message a successful publish job closes with.
    pub fn publish_success_message(&self, count: usize, dir: &str) -> (r: String)
        ensures
            r@ == "Published "@ + spec_digits(count as nat) + " files to "@ + dir@,
    {
        let mut r: String = "Published ".to_owned();
        let digits: String = usize_to_string(count);
        append_str(&mut r, digits.as_str());
        append_str(&mut r, " files to ");
        append_str(&mut r, dir);
        proof {
            assert(r@ =~= "Published "@ + spec_digits(count as nat) + " files to "@ + dir@);
        }
        r
    }

    /// The message a failed publish job closes with.
    pub fn publish_failure_message(&self, cause: &str) -> (r: String)
        ensures
            r@ == "Publication failed: "@ + cause@,
    {
        concat2("Publication failed: ", cause)
    }

    /// Record that one file is about to be written: the job's message names
    /// the file and a log line is appended.
    pub fn note_write_start(job: &mut PublicationJobData, rel_path: &str)
        requires
            old(job)@.logs.len() > 0,
        ensures
            final(job)@ == (JobV {
                message: "Writing "@ + rel_path@,
                logs: old(job)@.logs.update(
                    0,
                    old(job)@.logs[0].push("Writing: "@ + rel_path@),
                ),
                ..old(job)@
            }),
    {
        job.base.message = concat2("Writing ", rel_path);
        job.log(concat2("Writing: ", rel_path));
    }

    /// Record that one file was written.
    pub fn note_write_success(job: &mut PublicationJobData, rel_path: &str)
        requires
            old(job)@.logs.len() > 0,
        ensures
            final(job)@ == (JobV {
                logs: old(job)@.logs.update(
                    0,
                    old(job)@.logs[0].push("Success: "@ + rel_path@),
                ),
                ..old(job)@
            }),
    {
        job.log(concat2("Success: ", rel_path));
    }

    /// Record that writing one file failed: an error line joins the job and
    /// is also returned, to be surfaced by the caller.  The remaining files
    /// are not written.
    pub fn note_write_error(job: &mut PublicationJobData, rel_path: &str, cause: &str) -> (r:
        String)
        requires
            old(job)@.errors.len() > 0,
        ensures
            r@ == "Error writing "@ + rel_path@ + ": "@ + cause@,
            final(job)@ == (JobV {
                errors: old(job)@.errors.update(0, old(job)@.errors[0].push(r@)),
                ..old(job)@
            }),
    {
        let mut msg: String = "Error writing ".to_owned();
        append_str(&mut msg, rel_path);
        append_str(&mut msg, ": ");
        append_str(&mut msg, cause);
        let copy: String = msg.clone();
        job.error(copy);
        msg
    }

    /// Whether the user is logged in; filesystem hosting has no
    /// authentication, so this always holds.
    pub fn is_logged_in(&self) -> (r: bool)
        ensures
            r,
    {
        true
    }

    /// The OAuth URL; filesystem hosting uses none.
    pub fn get_oauth_url(&self) -> (r: Option<String>)
        ensures
            r is None,
    {
        Option::None
    }

    /// Connector options read from form data; filesystem hosting has none.
    pub fn get_options(&self) -> (r: ConnectorOptions)
        ensures
            r.website_url is None,
            r.extra@.len() == 0,
    {
        ConnectorOptions::default()
    }

    /// The current user: the system account name, with the stock icon and
    /// this connector's description.
    pub fn get_user(&self) -> (r: ConnectorUser)
        ensures
            r.email is None,
            r.picture is Some,
            r.storage.connector_id@ == self.spec_connector_id(),
            r.storage.connector_type == self.spec_connector_type(),
            r.storage.is_logged_in,
            r.storage.oauth_url is None,
    {
        let name: String = match system_username() {
            Option::Some(u) => u,
            Option::None => "unknown".to_owned(),
        };
        ConnectorUser {
            name,
            email: Option::None,
            picture: Option::Some(user_icon().to_owned()),
            storage: hosting_to_connector_data(self, true, Option::None),
        }
    }
}

impl ConnectorInfo for FsHosting {
    open spec fn spec_connector_id(&self) -> Seq<char> {
        "fs-hosting"@
    }

    open spec fn spec_connector_type(&self) -> ConnectorType {
        ConnectorType::Hosting
    }

    open spec fn spec_disable_logout(&self) -> bool {
        true
    }

    open spec fn spec_display_name(&self) -> Seq<char> {
        "File system hosting"@
    }

    open spec fn spec_icon(&self) -> Seq<char> {
        "/assets/laptop.png"@
    }

    open spec fn spec_color(&self) -> Seq<char> {
        "#ffffff"@
    }

    open spec fn spec_background(&self) -> Seq<char> {
        "#006400"@
    }

    fn connector_id(&self) -> (r: String) {
        "fs-hosting".to_owned()
    }

    fn connector_type(&self) -> (r: ConnectorType) {
        ConnectorType::Hosting
    }

    fn display_name(&self) -> (r: String) {
        "File system hosting".to_owned()
    }

    fn icon(&self) -> (r: String) {
        file_icon().to_owned()
    }

    fn color(&self) -> (r: String) {
        "#ffffff".to_owned()
    }

    fn background(&self) -> (r: String) {
        "#006400".to_owned()
    }

    fn disable_logout(&self) -> (r: bool) {
        true
    }
}

} // verus!
