use config_validator::{
    ByteSize, Filesystem, Host, HostRole, NetworkConfig, NetworkInterface, NetworkType,
    ServerConfig, StorageConfig, Validate,
};

#[test]
fn valid_server_config() {
    let config = ServerConfig {
        name: "production-cluster".into(),
        hosts: vec![Host {
            hostname: "manager-01".into(),
            ip_address: "192.168.1.10".into(),
            role: HostRole::Manager,
            enabled: true,
        }],
        storage: StorageConfig {
            filesystems: vec![Filesystem {
                name: "data_disk".into(),
                mount_point: "/data".into(),
                size: ByteSize(1024),
            }],
            default_size: ByteSize(1024),
        },
        network: NetworkConfig {
            interfaces: vec![NetworkInterface {
                name: "eth0".into(),
                network_type: NetworkType::Ethernet,
                speed_gbps: 10,
            }],
        },
    };

    assert!(config.validate().is_ok());
}

#[test]
fn no_manager_host() {
    let config = ServerConfig {
        name: "test-cluster".into(),
        hosts: vec![Host {
            hostname: "storage-01".into(),
            ip_address: "192.168.1.20".into(),
            role: HostRole::Storage,
            enabled: true,
        }],
        storage: StorageConfig {
            filesystems: vec![Filesystem {
                name: "data_disk".into(),
                mount_point: "/data".into(),
                size: ByteSize(1024),
            }],
            default_size: ByteSize(1024),
        },
        network: NetworkConfig {
            interfaces: vec![NetworkInterface {
                name: "eth0".into(),
                network_type: NetworkType::Ethernet,
                speed_gbps: 10,
            }],
        },
    };

    assert!(config.validate().is_err());
}
