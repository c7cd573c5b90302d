use config_validator::{
    config::storage::{Filesystem, StorageConfig},
    ByteSize, Validate,
};

#[test]
fn storage_test_valid_storage_config() {
    let storage = StorageConfig {
        filesystems: vec![Filesystem {
            name: "data_disk".to_string(),
            mount_point: "/data".to_string(),
            size: ByteSize(1024),
        }],
        default_size: ByteSize(1024),
    };

    assert!(storage.validate().is_ok());
}

#[test]
fn storage_test_invalid_filesystem_name() {
    let storage = StorageConfig {
        filesystems: vec![Filesystem {
            name: "data-disk".to_string(),
            mount_point: "/data".to_string(),
            size: ByteSize(1024),
        }],
        default_size: ByteSize(1024),
    };

    assert!(storage.validate().is_err());
}

#[test]
fn storage_test_invalid_mount_point() {
    let storage = StorageConfig {
        filesystems: vec![Filesystem {
            name: "datadisk".to_string(),
            mount_point: "data".to_string(),
            size: ByteSize(1024),
        }],
        default_size: ByteSize(1024),
    };

    assert!(storage.validate().is_err());
}

#[test]
fn storage_test_empty_filesystems_list() {
    let storage = StorageConfig {
        filesystems: vec![],
        default_size: ByteSize(1024),
    };

    assert!(storage.validate().is_err());
}
