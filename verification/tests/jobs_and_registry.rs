//! Behaviour of the job registry, the publish bookkeeping, and the
//! connector registry.

use silex_server::config::Config;
use silex_server::error::ConnectorError;
use silex_server::fs_hosting::FsHosting;
use silex_server::fs_storage::FsStorage;
use silex_server::jobs::JobManager;
use silex_server::jobs::JobStatus;
use silex_server::registry::ConnectorRegistry;
use silex_server::sys::new_unique_id;
use silex_server::traits::ConnectorInfo;
use silex_server::traits::to_connector_data;

#[test]
fn start_job_yields_in_progress_with_nonempty_id() {
    let mut manager = JobManager::new();
    let job = manager.start_job("Publishing".to_string());
    assert!(!job.base.job_id.is_empty());
    assert_eq!(job.base.job_id.chars().count(), 36);
    assert_eq!(job.base.status, JobStatus::InProgress);
    assert_eq!(job.base.message, "Publishing");
    assert_eq!(job.logs, vec![vec!["Publishing".to_string()]]);
    assert_eq!(job.errors, vec![Vec::<String>::new()]);
    assert!(job.start_time.is_some());
    assert!(job.end_time.is_none());
}

#[test]
fn complete_job_marks_success() {
    let mut manager = JobManager::new();
    let job = manager.start_job("Publishing".to_string());
    let id = job.base.job_id.clone();
    let stored = manager.get_job(&id).expect("job was started");
    assert_eq!(stored.base.status, JobStatus::InProgress);
    manager.complete_job(&id);
    let done = manager.get_job(&id).expect("job is still registered");
    assert_eq!(done.base.status, JobStatus::Success);
    assert!(done.end_time.is_some());
    assert_eq!(done.base.message, "Publishing");
}

#[test]
fn get_job_of_unknown_id_is_none() {
    let manager = JobManager::new();
    assert!(manager.get_job(&"missing".to_string()).is_none());
}

#[test]
fn fail_job_of_unknown_id_is_a_no_op() {
    let mut manager = JobManager::new();
    let job = manager.start_job("Publishing".to_string());
    let id = job.base.job_id.clone();
    manager.fail_job(&"missing".to_string(), "boom");
    manager.complete_job(&"also-missing".to_string());
    let kept = manager.get_job(&id).expect("known job is untouched");
    assert_eq!(kept.base.status, JobStatus::InProgress);
    assert!(manager.get_job(&"missing".to_string()).is_none());
}

#[test]
fn fail_job_records_the_error() {
    let mut manager = JobManager::new();
    let job = manager.start_job("Publishing".to_string());
    let id = job.base.job_id.clone();
    manager.fail_job(&id, "disk full");
    let failed = manager.get_job(&id).expect("job is still registered");
    assert_eq!(failed.base.status, JobStatus::Error);
    assert_eq!(failed.base.message, "disk full");
    assert_eq!(failed.errors, vec![vec!["disk full".to_string()]]);
    assert!(failed.end_time.is_some());
}

#[test]
fn callers_copy_of_the_job_is_independent() {
    let mut manager = JobManager::new();
    let mut job = manager.start_job("Publishing".to_string());
    job.log("local progress".to_string());
    let stored = manager.get_job(&job.base.job_id).expect("job was started");
    // The registry still holds only the initial message.
    assert_eq!(stored.logs, vec![vec!["Publishing".to_string()]]);
    assert_eq!(job.logs, vec![vec![
        "Publishing".to_string(),
        "local progress".to_string(),
    ]]);
}

#[test]
fn publish_bookkeeping_messages() {
    let hosting = FsHosting::new("/data".to_string(), None);
    let mut manager = JobManager::new();
    let mut job = manager.start_job(hosting.publish_start_message());
    assert_eq!(job.base.message, "Publishing to File system hosting");
    let dir = hosting.publish_dir("w1");
    assert_eq!(dir, "/data/w1/public");
    job.log(hosting.publish_files_message(12, &dir));
    FsHosting::note_write_start(&mut job, "index.html");
    assert_eq!(job.base.message, "Writing index.html");
    FsHosting::note_write_success(&mut job, "index.html");
    let msg = FsHosting::note_write_error(&mut job, "css/site.css", "permission denied");
    assert_eq!(msg, "Error writing css/site.css: permission denied");
    assert_eq!(job.errors, vec![vec![msg.clone()]]);
    assert_eq!(job.logs, vec![vec![
        "Publishing to File system hosting".to_string(),
        "Publishing 12 files to /data/w1/public".to_string(),
        "Writing: index.html".to_string(),
        "Success: index.html".to_string(),
    ]]);
    job.fail(hosting.publish_failure_message("permission denied"));
    assert_eq!(job.base.status, JobStatus::Error);
    assert_eq!(job.base.message, "Publication failed: permission denied");
}

#[test]
fn publish_success_closes_the_job() {
    let hosting = FsHosting::new("/data".to_string(), Some("/srv/www".to_string()));
    let dir = hosting.publish_dir("anything");
    assert_eq!(dir, "/srv/www");
    let mut manager = JobManager::new();
    let mut job = manager.start_job(hosting.publish_start_message());
    job.success(hosting.publish_success_message(2, &dir));
    manager.complete_job(&job.base.job_id);
    assert_eq!(job.base.status, JobStatus::Success);
    assert_eq!(job.base.message, "Published 2 files to /srv/www");
    let stored = manager.get_job(&job.base.job_id).unwrap();
    assert_eq!(stored.base.status, JobStatus::Success);
}

#[test]
fn hosted_site_url_points_at_the_entry_document() {
    let per_site = FsHosting::new("/data".to_string(), None);
    assert_eq!(per_site.get_url("w1"), "file:///data/w1/public/index.html");
    let shared = FsHosting::new("/data".to_string(), Some("/srv/www".to_string()));
    assert_eq!(shared.get_url("w1"), "file:///srv/www/index.html");
}

#[test]
fn fresh_ids_are_long_and_distinct() {
    let a = new_unique_id();
    let b = new_unique_id();
    assert_eq!(a.chars().count(), 36);
    assert_eq!(b.chars().count(), 36);
    assert_ne!(a, b);
}

#[test]
fn registry_finds_connectors_by_id() {
    let mut registry: ConnectorRegistry<FsStorage, FsHosting> = ConnectorRegistry::new();
    registry.register_storage(FsStorage::new("/a".to_string(), "assets".to_string()));
    registry.register_hosting(FsHosting::new("/a".to_string(), None));
    assert_eq!(registry.storage_connectors().len(), 1);
    assert_eq!(registry.hosting_connectors().len(), 1);
    let found = registry.get_storage_connector("fs-storage").expect("registered");
    assert_eq!(found.connector_id(), "fs-storage");
    assert!(registry.get_storage_connector("unknown").is_none());
    let hosting = registry.get_hosting_connector("fs-hosting").expect("registered");
    assert_eq!(hosting.connector_id(), "fs-hosting");
}

#[test]
fn registry_lookup_returns_the_first_match() {
    let mut registry: ConnectorRegistry<FsStorage, FsHosting> = ConnectorRegistry::new();
    registry.register_storage(FsStorage::new("/first".to_string(), "assets".to_string()));
    registry.register_storage(FsStorage::new("/second".to_string(), "assets".to_string()));
    // Both share the id, so the later registration is shadowed.
    let found = registry.get_storage_connector("fs-storage").expect("registered");
    assert_eq!(found.data_path, "/first");
}

#[test]
fn registry_defaults_to_the_first_registered() {
    let mut registry: ConnectorRegistry<FsStorage, FsHosting> = ConnectorRegistry::new();
    assert!(registry.get_storage_connector_or_default(None).is_none());
    assert!(registry.get_hosting_connector_or_default(None).is_none());
    registry.register_storage(FsStorage::new("/first".to_string(), "assets".to_string()));
    registry.register_storage(FsStorage::new("/second".to_string(), "assets".to_string()));
    let by_default = registry.get_storage_connector_or_default(None).expect("non-empty");
    assert_eq!(by_default.data_path, "/first");
    let by_id = registry
        .get_storage_connector_or_default(Some("fs-storage"))
        .expect("registered");
    assert_eq!(by_id.data_path, "/first");
    assert!(registry.get_storage_connector_or_default(Some("unknown")).is_none());
}

#[test]
fn connector_descriptions() {
    let storage = FsStorage::new("/a".to_string(), "assets".to_string());
    let data = to_connector_data(&storage, storage.is_logged_in(), storage.get_oauth_url());
    assert_eq!(data.connector_id, "fs-storage");
    assert_eq!(data.display_name, "File system storage");
    assert!(data.is_logged_in);
    assert!(data.oauth_url.is_none());
    assert!(data.disable_logout);
    let user = storage.get_user();
    assert!(user.email.is_none());
    assert!(user.picture.is_some());
    assert_eq!(user.storage.connector_id, "fs-storage");
    let hosting = FsHosting::new("/a".to_string(), None);
    let user2 = hosting.get_user();
    assert_eq!(user2.storage.connector_id, "fs-hosting");
    assert!(hosting.get_options().website_url.is_none());
    assert!(storage.get_options().extra.is_empty());
}

#[test]
fn error_status_codes_and_messages() {
    assert_eq!(ConnectorError::NotAuthenticated.status_code(), 401);
    assert_eq!(ConnectorError::NotFound("x".to_string()).status_code(), 404);
    assert_eq!(ConnectorError::InvalidInput("x".to_string()).status_code(), 400);
    assert_eq!(ConnectorError::Io("x".to_string()).status_code(), 500);
    assert_eq!(ConnectorError::Json("x".to_string()).status_code(), 500);
    assert_eq!(ConnectorError::NotAuthenticated.message(), "Not authenticated");
    assert_eq!(
        ConnectorError::NotFound("Website 'w1' not found".to_string()).message(),
        "Resource not found: Website 'w1' not found"
    );
    assert_eq!(ConnectorError::InvalidInput("bad".to_string()).message(), "Invalid input: bad");
    assert_eq!(ConnectorError::Io("cause".to_string()).message(), "IO error: cause");
    assert_eq!(ConnectorError::Json("cause".to_string()).message(), "JSON error: cause");
}

#[test]
fn stock_configuration() {
    let config = Config::default();
    assert_eq!(config.server_url(), "http://localhost:6805");
    assert_eq!(config.port, 6805);
    assert_eq!(config.data_path, "./silex/storage");
    assert!(config.hosting_path.is_none());
    assert_eq!(config.assets_folder, "assets");
    assert_eq!(config.default_website_id, "default");
}
