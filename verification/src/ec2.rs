use vstd::prelude::*;

verus! {

/// One tag on an instance, as the compute service describes it.
#[derive(Clone, Debug, PartialEq)]
pub struct Tag {
    pub key: Option<String>,
    pub value: Option<String>,
}

/// What the name lookup reads of one described instance: its tags.
#[derive(Clone, Debug, PartialEq)]
pub struct Ec2Instance {
    pub tags: Option<Vec<Tag>>,
}

/// One reservation out of a describe-instances reply: the instances it holds.
#[derive(Clone, Debug, PartialEq)]
pub struct Reservation {
    pub instances: Option<Vec<Ec2Instance>>,
}

/// Why no name could be read out of a describe-instances reply. The first
/// variant carries the remote call's own error text; the rest name the part
/// of the reply that was missing or empty.
#[derive(Debug, PartialEq)]
pub enum InstanceNameError {
    DescribeInstancesError(String),
    MissingReservations,
    EmptyReservations,
    MissingInstances,
    EmptyInstances,
    MissingTags,
    MissingNameTag,
}

/// Mathematical image of a `Tag`.
#[verifier::ext_equal]
pub struct TagView {
    pub key: Option<Seq<char>>,
    pub value: Option<Seq<char>>,
}

pub open spec fn opt_string_view(s: Option<String>) -> Option<Seq<char>> {
    match s {
        Some(x) => Some(x@),
        None => None,
    }
}

impl View for Tag {
    type V = TagView;

    open spec fn view(&self) -> TagView {
        TagView { key: opt_string_view(self.key), value: opt_string_view(self.value) }
    }
}

/// The tags of an instance, viewed; `None` when the reply carried none.
pub open spec fn instance_tags_view(i: Ec2Instance) -> Option<Seq<TagView>> {
    match i.tags {
        Some(tags) => Some(tags@.map_values(|t: Tag| t@)),
        None => None,
    }
}

/// The value of the first tag named `Name` that carries a value; a tag named
/// `Name` without a value is passed over.
pub open spec fn spec_find_name_tag(tags: Seq<TagView>) -> Result<Seq<char>, InstanceNameError>
    decreases tags.len(),
{
    if tags.len() == 0 {
        Err(InstanceNameError::MissingNameTag)
    } else {
        let t = tags[0];
        match t.value {
            Some(v) => {
                if t.key == Some("Name"@) {
                    Ok(v)
                } else {
                    spec_find_name_tag(tags.drop_first())
                }
            },
            None => spec_find_name_tag(tags.drop_first()),
        }
    }
}

/// The name read out of a describe-instances reply: the `Name` tag of the
/// first instance of the first reservation, or the error naming the first
/// part of the reply that was missing or empty.
pub open spec fn spec_instance_name(reservations: Option<Vec<Reservation>>) -> Result<
    Seq<char>,
    InstanceNameError,
> {
    match reservations {
        None => Err(InstanceNameError::MissingReservations),
        Some(rs) => {
            if rs@.len() == 0 {
                Err(InstanceNameError::EmptyReservations)
            } else {
                match rs@[0].instances {
                    None => Err(InstanceNameError::MissingInstances),
                    Some(instances) => {
                        if instances@.len() == 0 {
                            Err(InstanceNameError::EmptyInstances)
                        } else {
                            match instance_tags_view(instances@[0]) {
                                None => Err(InstanceNameError::MissingTags),
                                Some(tags) => spec_find_name_tag(tags),
                            }
                        }
                    },
                }
            }
        },
    }
}

/// Reads the instance's name tag out of a describe-instances reply, exactly
/// as `spec_instance_name` states it. The remote call itself happens outside;
/// its `Ok` payload's reservations are handed in here.
pub fn get_instance_name(reservations: Option<Vec<Reservation>>) -> (r: Result<
    String,
    InstanceNameError,
>)
    ensures
        (match r {
            Ok(name) => spec_instance_name(reservations) == Ok::<Seq<char>, InstanceNameError>(
                name@,
            ),
            Err(e) => spec_instance_name(reservations) == Err::<Seq<char>, InstanceNameError>(e),
        }),
{
    let rs = match &reservations {
        Some(rs) => rs,
        None => {
            return Err(InstanceNameError::MissingReservations);
        },
    };
    if rs.len() == 0 {
        return Err(InstanceNameError::EmptyReservations);
    }
    let instances = match &rs[0].instances {
        Some(instances) => instances,
        None => {
            return Err(InstanceNameError::MissingInstances);
        },
    };
    if instances.len() == 0 {
        return Err(InstanceNameError::EmptyInstances);
    }
    let tags = match &instances[0].tags {
        Some(tags) => tags,
        None => {
            return Err(InstanceNameError::MissingTags);
        },
    };

    let ghost tags_v = tags@.map_values(|t: Tag| t@);
    proof {
        assert(tags_v.skip(0) =~= tags_v);
    }
    let name_key = "Name".to_owned();
    let mut idx: usize = 0;
    while idx < tags.len()
        invariant
            idx <= tags.len(),
            tags_v == tags@.map_values(|t: Tag| t@),
            spec_instance_name(reservations) == spec_find_name_tag(tags_v),
            name_key@ == "Name"@,
            spec_find_name_tag(tags_v) == spec_find_name_tag(tags_v.skip(idx as int)),
        decreases tags.len() - idx,
    {
        let tag = &tags[idx];
        let key_matches = match &tag.key {
            Some(k) => *k == name_key,
            None => false,
        };
        if key_matches {
            if let Some(v) = &tag.value {
                proof {
                    assert(tags_v[idx as int] == tags@[idx as int]@);
                    assert(tags_v.skip(idx as int)[0] == tags_v[idx as int]);
                    assert(spec_find_name_tag(tags_v.skip(idx as int))
                        == Ok::<Seq<char>, InstanceNameError>(v@));
                }
                return Ok(v.clone());
            }
        }
        proof {
            assert(tags_v.skip(idx as int)[0] == tags_v[idx as int]);
            assert(tags_v.skip(idx as int).drop_first() =~= tags_v.skip(idx as int + 1));
        }
        idx = idx + 1;
    }
    proof {
        assert(tags_v.skip(idx as int) =~= Seq::<TagView>::empty());
    }
    Err(InstanceNameError::MissingNameTag)
}

} // verus!
