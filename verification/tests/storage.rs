use config_validator::{ByteSize, Filesystem, StorageConfig, Validate};

#[test]
fn storage_valid_storage_config() {
    let storage = StorageConfig {
        default_size: ByteSize(1024),
        filesystems: vec![Filesystem {
            name: "data_disk".into(),
            mount_point: "/data".into(),
            size: ByteSize(1024),
        }],
    };

    assert!(storage.validate().is_ok());
}

#[test]
fn storage_invalid_filesystem_name() {
    let storage = StorageConfig {
        default_size: ByteSize(1024),
        filesystems: vec![Filesystem {
            name: "data-disk".into(),
            mount_point: "/data".into(),
            size: ByteSize(1024),
        }],
    };

    assert!(storage.validate().is_err());
}

#[test]
fn storage_invalid_mount_point() {
    let storage = StorageConfig {
        default_size: ByteSize(1024),
        filesystems: vec![Filesystem {
            name: "datadisk".into(),
            mount_point: "data".into(),
            size: ByteSize(1024),
        }],
    };

    assert!(storage.validate().is_err());
}

#[test]
fn storage_empty_filesystems_list() {
    let storage = StorageConfig {
        default_size: ByteSize(1024),
        filesystems: vec![],
    };

    assert!(storage.validate().is_err());
}
