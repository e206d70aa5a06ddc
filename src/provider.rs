use vstd::prelude::*;
use vstd::string::*;

use crate::config::ProviderConfig;
use crate::error::{ErrorKind, GmlError};
use crate::lambda::Lambda;

verus! {

/// A remote instance: its provider-side id and network address.
#[derive(Debug, PartialEq, Eq)]
pub struct NodeDetails {
    pub ip: String,
    pub id: String,
}

/// What to create: an instance of the given provider-specific type.
#[derive(Debug, PartialEq, Eq)]
pub struct NodeRequest {
    pub instance_type: String,
}

/// The capabilities that every cloud backend offers.
pub trait NodeProvider {
    /// Creates one instance and waits until it is addressable and active.
    fn start_node(&self, request: NodeRequest) -> Result<NodeDetails, GmlError>;

    /// Destroys the instance with the given id; returns the id torn down.
    fn stop_node(&self, details: NodeDetails) -> Result<NodeDetails, GmlError>;

    /// The login account of instances that this provider creates.
    fn get_user(&self) -> Result<String, GmlError>;

    /// The catalogue of instance types that have capacity now.
    fn get_node_types(&self) -> Result<String, GmlError>;
}

/// Capabilities of a backend that manages whole clusters.
pub trait ClusterProvider {}

/// The provider backends that this system knows, selected by name.
#[derive(Debug, PartialEq, Eq)]
pub enum ProviderHandle {
    Lambda(Lambda),
}

/// The provider name that selects the Lambda backend.
pub open spec fn lambda_name() -> Seq<char> {
    seq!['l', 'a', 'm', 'b', 'd', 'a']
}

fn is_lambda(name: &str) -> (r: bool)
    ensures
        r == (name@ == lambda_name()),
{
    let key = String::from_str("lambda");
    proof {
        reveal_strlit("lambda");
    }
    assert(key@ == lambda_name());
    let given = String::from_str(name);
    given == key
}

/// Builds the backend called `provider_name` from its configuration. Fails with
/// `Config` for an unknown name, and for Lambda when the API key, the SSH key
/// or the region is missing.
pub fn create_provider_handle(provider_name: &str, provider_config: &ProviderConfig) -> (r: Result<
    ProviderHandle,
    GmlError,
>)
    ensures
        r.is_ok() == (provider_name@ == lambda_name() && provider_config.api_key.is_some()
            && provider_config.ssh_key.is_some() && provider_config.region.is_some()),
        r matches Ok(ProviderHandle::Lambda(l)) ==> Some(l.api_key) == provider_config.api_key
            && Some(l.ssh_key_id) == provider_config.ssh_key && Some(l.region)
            == provider_config.region,
        r matches Err(e) ==> e.kind == ErrorKind::Config,
{
    if !is_lambda(provider_name) {
        return Err(GmlError::about(ErrorKind::Config, "unimplemented provider: ", provider_name));
    }
    let api_key = match &provider_config.api_key {
        Some(k) => k.clone(),
        None => {
            return Err(
                GmlError::new(
                    ErrorKind::Config,
                    String::from_str("api-key is required for the lambda provider"),
                ),
            );
        },
    };
    let ssh_key_id = match &provider_config.ssh_key {
        Some(k) => k.clone(),
        None => {
            return Err(
                GmlError::new(
                    ErrorKind::Config,
                    String::from_str("ssh-key is required for the lambda provider"),
                ),
            );
        },
    };
    let region = match &provider_config.region {
        Some(k) => k.clone(),
        None => {
            return Err(
                GmlError::new(
                    ErrorKind::Config,
                    String::from_str("region is required for the lambda provider"),
                ),
            );
        },
    };
    Ok(ProviderHandle::Lambda(Lambda::new(api_key, ssh_key_id, region)))
}

} // verus!
