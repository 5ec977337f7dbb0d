use coco_search::common::server::{AuthProvider, Provider, Server, Sso, Version};
use coco_search::server::servers::trim_endpoint_last_forward_slash;

#[test]
fn test_trim_endpoint_last_forward_slash() {
    let mut server = Server {
        id: "test".to_string(),
        builtin: false,
        enabled: true,
        name: "".to_string(),
        endpoint: "https://example.com///".to_string(),
        provider: Provider {
            name: "".to_string(),
            icon: "".to_string(),
            website: "".to_string(),
            eula: "".to_string(),
            privacy_policy: "".to_string(),
            banner: "".to_string(),
            description: "".to_string(),
        },
        version: Version {
            number: "".to_string(),
        },
        minimal_client_version: None,
        updated: "".to_string(),
        public: false,
        available: false,
        health: None,
        profile: None,
        auth_provider: AuthProvider {
            sso: Sso {
                url: "".to_string(),
            },
        },
        priority: 0,
    };

    trim_endpoint_last_forward_slash(&mut server);

    assert_eq!(server.endpoint, "https://example.com");
}
