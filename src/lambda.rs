use vstd::prelude::*;
use vstd::string::*;

use crate::error::{ErrorKind, GmlError};
use crate::provider::{NodeDetails, NodeRequest};

verus! {

/// Root of the Lambda Cloud REST API.
pub const LAMBDA_API_BASE: &'static str = "https://cloud.lambda.ai/api/v1/";

/// Credentials and placement for the Lambda Cloud backend.
#[derive(Debug, PartialEq, Eq)]
pub struct Lambda {
    pub api_key: String,
    pub ssh_key_id: String,
    pub region: String,
}

/// Body of a launch request.
#[derive(Debug, PartialEq, Eq)]
pub struct LaunchRequest {
    pub region_name: String,
    pub instance_type_name: String,
    pub ssh_key_names: Vec<String>,
}

/// Body of a terminate request.
#[derive(Debug, PartialEq, Eq)]
pub struct TerminateRequest {
    pub instance_ids: Vec<String>,
}

/// One entry of the instance-type catalogue: its name and in how many regions
/// it has capacity now.
#[derive(Debug, PartialEq, Eq)]
pub struct InstanceTypeOffer {
    pub name: String,
    pub regions_with_capacity: usize,
}

pub open spec fn has_capacity(o: InstanceTypeOffer) -> bool {
    o.regions_with_capacity > 0
}

pub open spec fn offer_name(o: InstanceTypeOffer) -> String {
    o.name
}

/// A status code that reqwest's `is_success` accepts.
pub open spec fn is_success_status(status: u16) -> bool {
    200 <= status <= 299
}

/// A status code that reports rejected credentials.
pub open spec fn is_auth_status(status: u16) -> bool {
    status == 401 || status == 403
}

impl Lambda {
    pub fn new(api_key: String, ssh_key_id: String, region: String) -> (r: Lambda)
        ensures
            r.api_key == api_key,
            r.ssh_key_id == ssh_key_id,
            r.region == region,
    {
        Lambda { api_key, ssh_key_id, region }
    }

    /// The login account of the default Lambda Stack image.
    pub fn default_user(&self) -> (r: String)
        ensures
            r@ == "ubuntu"@,
    {
        String::from_str("ubuntu")
    }

    /// The launch request for one instance of the requested type, in this
    /// backend's region and with its SSH key.
    pub fn launch_request(&self, request: &NodeRequest) -> (r: LaunchRequest)
        ensures
            r.region_name == self.region,
            r.instance_type_name == request.instance_type,
            r.ssh_key_names@ == seq![self.ssh_key_id],
    {
        let mut keys: Vec<String> = Vec::new();
        keys.push(self.ssh_key_id.clone());
        assert(keys@ == seq![self.ssh_key_id]);
        LaunchRequest {
            region_name: self.region.clone(),
            instance_type_name: request.instance_type.clone(),
            ssh_key_names: keys,
        }
    }

    /// The terminate request for the instance that `details` names.
    pub fn terminate_request(&self, details: &NodeDetails) -> (r: TerminateRequest)
        ensures
            r.instance_ids@ == seq![details.id],
    {
        let mut ids: Vec<String> = Vec::new();
        ids.push(details.id.clone());
        assert(ids@ == seq![details.id]);
        TerminateRequest { instance_ids: ids }
    }

    pub fn launch_url(&self) -> (r: String)
        ensures
            r@ == LAMBDA_API_BASE@ + "instance-operations/launch"@,
    {
        String::from_str(LAMBDA_API_BASE).concat("instance-operations/launch")
    }

    pub fn terminate_url(&self) -> (r: String)
        ensures
            r@ == LAMBDA_API_BASE@ + "instance-operations/terminate"@,
    {
        String::from_str(LAMBDA_API_BASE).concat("instance-operations/terminate")
    }

    pub fn instance_types_url(&self) -> (r: String)
        ensures
            r@ == LAMBDA_API_BASE@ + "instance-types"@,
    {
        String::from_str(LAMBDA_API_BASE).concat("instance-types")
    }

    /// Address of the status resource of one instance.
    pub fn instance_url(&self, instance_id: &str) -> (r: String)
        ensures
            r@ == LAMBDA_API_BASE@ + "instances/"@ + instance_id@,
    {
        String::from_str(LAMBDA_API_BASE).concat("instances/").concat(instance_id)
    }
}

/// Classifies an HTTP answer: success for a 2xx status, `Auth` for 401 and 403,
/// and `RemoteApi` carrying the status for any other; the body becomes the message.
pub fn check_response_status(status: u16, body: &str) -> (r: Result<(), GmlError>)
    ensures
        r.is_ok() == is_success_status(status),
        r matches Err(e) ==> e.message@ == body@ && e.kind == (if is_auth_status(status) {
            ErrorKind::Auth
        } else {
            ErrorKind::RemoteApi(status)
        }),
{
    if 200 <= status && status <= 299 {
        Ok(())
    } else if status == 401 || status == 403 {
        Err(GmlError::new(ErrorKind::Auth, String::from_str(body)))
    } else {
        Err(GmlError::new(ErrorKind::RemoteApi(status), String::from_str(body)))
    }
}

/// The id of the launched instance: the first that the launch response lists;
/// fails with `Protocol` when it lists none.
pub fn launched_instance_id(instance_ids: &Vec<String>) -> (r: Result<String, GmlError>)
    ensures
        r.is_ok() == (instance_ids@.len() > 0),
        r matches Ok(id) ==> id == instance_ids@[0],
        r matches Err(e) ==> e.kind == ErrorKind::Protocol,
{
    if instance_ids.len() == 0 {
        Err(GmlError::new(ErrorKind::Protocol, String::from_str("no instance id returned")))
    } else {
        Ok(instance_ids[0].clone())
    }
}

/// The instance that a terminate response confirms, with the address it had:
/// the first id listed; fails with `Protocol` when it lists none.
pub fn terminated_node(details: NodeDetails, terminated_ids: &Vec<String>) -> (r: Result<
    NodeDetails,
    GmlError,
>)
    ensures
        r.is_ok() == (terminated_ids@.len() > 0),
        r matches Ok(d) ==> d.id == terminated_ids@[0] && d.ip == details.ip,
        r matches Err(e) ==> e.kind == ErrorKind::Protocol,
{
    if terminated_ids.len() == 0 {
        Err(
            GmlError::new(ErrorKind::Protocol, String::from_str("no terminated instance returned")),
        )
    } else {
        Ok(NodeDetails { ip: details.ip, id: terminated_ids[0].clone() })
    }
}

/// Names of the instance types that have capacity in some region, in catalogue order.
pub fn available_instance_types(offers: &Vec<InstanceTypeOffer>) -> (r: Vec<String>)
    ensures
        r@ == offers@.filter(|o: InstanceTypeOffer| has_capacity(o)).map_values(
            |o: InstanceTypeOffer| offer_name(o),
        ),
{
    let ghost pred = |o: InstanceTypeOffer| has_capacity(o);
    let ghost name = |o: InstanceTypeOffer| offer_name(o);
    let mut out: Vec<String> = Vec::new();
    let mut i: usize = 0;
    while i < offers.len()
        invariant
            i <= offers@.len(),
            pred == (|o: InstanceTypeOffer| has_capacity(o)),
            name == (|o: InstanceTypeOffer| offer_name(o)),
            out@ == offers@.subrange(0, i as int).filter(pred).map_values(name),
        decreases offers@.len() - i,
    {
        proof {
            offers@.subrange(0, i as int).lemma_filter_push(offers@[i as int], pred);
            assert(offers@.subrange(0, i as int).push(offers@[i as int]) == offers@.subrange(
                0,
                i + 1,
            ));
        }
        if offers[i].regions_with_capacity > 0 {
            let ghost kept = offers@.subrange(0, i as int).filter(pred);
            assert(pred(offers@[i as int]));
            assert(offers@.subrange(0, i + 1).filter(pred) == kept.push(offers@[i as int]));
            out.push(offers[i].name.clone());
            assert(out@ =~= kept.push(offers@[i as int]).map_values(name));
        }
        i = i + 1;
    }
    assert(offers@.subrange(0, offers@.len() as int) == offers@);
    out
}

} // verus!
