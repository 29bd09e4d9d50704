//! The instance record as the inventory reads it.
//!
//! The provider reports some thirty optional fields for each instance. These
//! types hold the ones that decide whether a host is listed, under which
//! name, with which fields and in which groups. Any of them may be absent.

use vstd::prelude::*;

verus! {

/// The state of an instance: a numeric code and a name.
#[derive(Clone, Debug, PartialEq, Eq)]
pub struct InstanceState {
    pub code: Option<i64>,
    pub name: Option<String>,
}

/// Where an instance runs.
#[derive(Clone, Debug, PartialEq, Eq)]
pub struct Placement {
    pub availability_zone: Option<String>,
}

/// The instance profile attached to an instance.
#[derive(Clone, Debug, PartialEq, Eq)]
pub struct IamInstanceProfile {
    pub arn: Option<String>,
}

/// One security group of an instance.
#[derive(Clone, Debug, PartialEq, Eq)]
pub struct GroupIdentifier {
    pub group_id: Option<String>,
    pub group_name: Option<String>,
}

/// One tag of an instance.
#[derive(Clone, Debug, PartialEq, Eq)]
pub struct Tag {
    pub key: Option<String>,
    pub value: Option<String>,
}

/// One instance as the provider describes it.
#[derive(Clone, Debug, PartialEq, Eq)]
pub struct Instance {
    pub architecture: Option<String>,
    pub hypervisor: Option<String>,
    pub iam_instance_profile: Option<IamInstanceProfile>,
    pub image_id: Option<String>,
    pub instance_id: Option<String>,
    pub instance_type: Option<String>,
    pub key_name: Option<String>,
    pub placement: Option<Placement>,
    pub private_dns_name: Option<String>,
    pub private_ip_address: Option<String>,
    pub public_ip_address: Option<String>,
    pub root_device_name: Option<String>,
    pub root_device_type: Option<String>,
    pub security_groups: Option<Vec<GroupIdentifier>>,
    pub state: Option<InstanceState>,
    pub subnet_id: Option<String>,
    pub tags: Option<Vec<Tag>>,
    pub virtualization_type: Option<String>,
    pub vpc_id: Option<String>,
}

/// The instances that one reservation holds.
#[derive(Clone, Debug, PartialEq, Eq)]
pub struct Reservation {
    pub instances: Option<Vec<Instance>>,
}

/// The text of an optional field; an absent field reads as the empty string.
pub open spec fn text_of(field: Option<String>) -> Seq<char> {
    match field {
        Some(s) => s@,
        None => Seq::empty(),
    }
}

/// The view of an optional field.
pub open spec fn opt_text(field: Option<String>) -> Option<Seq<char>> {
    match field {
        Some(s) => Some(s@),
        None => None,
    }
}

impl Default for Instance {
    /// An instance of which nothing is known.
    fn default() -> (r: Instance)
        ensures
            r == Instance::unknown(),
    {
        Instance {
            architecture: None,
            hypervisor: None,
            iam_instance_profile: None,
            image_id: None,
            instance_id: None,
            instance_type: None,
            key_name: None,
            placement: None,
            private_dns_name: None,
            private_ip_address: None,
            public_ip_address: None,
            root_device_name: None,
            root_device_type: None,
            security_groups: None,
            state: None,
            subnet_id: None,
            tags: None,
            virtualization_type: None,
            vpc_id: None,
        }
    }
}

impl Instance {
    /// The instance of which nothing is known: every field is absent.
    pub open spec fn unknown() -> Instance {
        Instance {
            architecture: None,
            hypervisor: None,
            iam_instance_profile: None,
            image_id: None,
            instance_id: None,
            instance_type: None,
            key_name: None,
            placement: None,
            private_dns_name: None,
            private_ip_address: None,
            public_ip_address: None,
            root_device_name: None,
            root_device_type: None,
            security_groups: None,
            state: None,
            subnet_id: None,
            tags: None,
            virtualization_type: None,
            vpc_id: None,
        }
    }

    /// The availability zone, if the instance has a placement that names one.
    pub open spec fn zone(&self) -> Option<Seq<char>> {
        match self.placement {
            Some(p) => opt_text(p.availability_zone),
            None => None,
        }
    }

    /// The ARN of the instance profile, if there is one.
    pub open spec fn profile_arn(&self) -> Option<Seq<char>> {
        match self.iam_instance_profile {
            Some(p) => opt_text(p.arn),
            None => None,
        }
    }

    /// The name of the state, if there is one.
    pub open spec fn state_name(&self) -> Option<Seq<char>> {
        match self.state {
            Some(s) => opt_text(s.name),
            None => None,
        }
    }

    /// The security groups; none when the field is absent.
    pub open spec fn groups(&self) -> Seq<GroupIdentifier> {
        match self.security_groups {
            Some(g) => g@,
            None => Seq::empty(),
        }
    }

    /// The tags; none when the field is absent.
    pub open spec fn tag_list(&self) -> Seq<Tag> {
        match self.tags {
            Some(t) => t@,
            None => Seq::empty(),
        }
    }
}

} // verus!
