//! The identity of a missile template.
//!
//! A template is known by the name of the shared template it was made from,
//! where it has one, and by its designation and nickname. Two identities
//! name the same template where both have a template name and the names are
//! the same, or where designation and nickname are the same.

use vstd::prelude::*;
use vstd::std_specs::cmp::PartialEqSpecImpl;
use crate::events::{clone_opt_string, opt_view};
use crate::schema::MissileTemplate;

verus! {

/// What a listing of missile files holds for one file.
#[derive(Debug, Clone, PartialEq, Eq)]
pub struct MissileData {
    /// The name of the shared template, empty where the missile has none.
    pub template_name: String,
    pub designation: String,
    pub nickname: String,
    /// The path of the file.
    pub path: String,
    pub cost: i32,
    pub selected: bool,
}

/// The identity of a missile template.
#[derive(Debug)]
pub struct MissileTemplateId {
    pub template_name: Option<String>,
    pub designation: String,
    pub nickname: String,
}

/// The view of a [`MissileTemplateId`].
pub struct MissileTemplateIdView {
    pub template_name: Option<Seq<char>>,
    pub designation: Seq<char>,
    pub nickname: Seq<char>,
}

impl MissileTemplateIdView {
    /// Whether two identities name the same template.
    pub open spec fn same_as(self, other: MissileTemplateIdView) -> bool {
        ||| self.template_name is Some && self.template_name == other.template_name
        ||| self.designation == other.designation && self.nickname == other.nickname
    }
}

impl View for MissileTemplateId {
    type V = MissileTemplateIdView;

    open spec fn view(&self) -> MissileTemplateIdView {
        MissileTemplateIdView {
            template_name: opt_view(self.template_name),
            designation: self.designation@,
            nickname: self.nickname@,
        }
    }
}

impl Clone for MissileTemplateId {
    fn clone(&self) -> (res: Self)
        ensures
            res@ == self@,
    {
        MissileTemplateId {
            template_name: clone_opt_string(&self.template_name),
            designation: self.designation.clone(),
            nickname: self.nickname.clone(),
        }
    }
}

impl PartialEq for MissileTemplateId {
    fn eq(&self, other: &Self) -> (res: bool) {
        let same_template = match (&self.template_name, &other.template_name) {
            (Some(a), Some(b)) => *a == *b,
            _ => false,
        };
        same_template || (self.designation == other.designation && self.nickname
            == other.nickname)
    }
}

impl PartialEqSpecImpl for MissileTemplateId {
    open spec fn obeys_eq_spec() -> bool {
        true
    }

    open spec fn eq_spec(&self, other: &Self) -> bool {
        self@.same_as(other@)
    }
}

/// The identity of a missile template of a document.
pub open spec fn missile_id(missile: MissileTemplate) -> MissileTemplateIdView {
    MissileTemplateIdView {
        template_name: opt_view(missile.associated_template_name),
        designation: missile.designation@,
        nickname: missile.nickname@,
    }
}

/// The identity of the missile template of a listed file.
pub open spec fn missile_data_id(missile_data: MissileData) -> MissileTemplateIdView {
    MissileTemplateIdView {
        template_name: if missile_data.template_name@.len() == 0 {
            None
        } else {
            Some(missile_data.template_name@)
        },
        designation: missile_data.designation@,
        nickname: missile_data.nickname@,
    }
}

impl MissileTemplateId {
    /// The identity of a missile template of a document.
    pub fn from_missile(missile: &MissileTemplate) -> (id: MissileTemplateId)
        ensures
            id@ == missile_id(*missile),
    {
        MissileTemplateId {
            template_name: clone_opt_string(&missile.associated_template_name),
            designation: missile.designation.clone(),
            nickname: missile.nickname.clone(),
        }
    }

    /// The identity of the missile template of a listed file; an empty
    /// template name stands for none.
    pub fn from_missile_data(missile_data: &MissileData) -> (id: MissileTemplateId)
        ensures
            id@ == missile_data_id(*missile_data),
    {
        MissileTemplateId {
            template_name: if missile_data.template_name.as_str().unicode_len() == 0 {
                None
            } else {
                Some(missile_data.template_name.clone())
            },
            designation: missile_data.designation.clone(),
            nickname: missile_data.nickname.clone(),
        }
    }

    /// The name to show for the template: its template name or, where it has
    /// none, its designation and nickname with a space between them.
    pub fn label(&self) -> (text: String)
        ensures
            text@ == match self@.template_name {
                Some(name) => name,
                None => self@.designation + " "@ + self@.nickname,
            },
    {
        match &self.template_name {
            Some(name) => name.clone(),
            None => {
                let mut text = self.designation.clone();
                text.append(" ");
                text.append(self.nickname.as_str());
                text
            },
        }
    }
}

/// Two missiles made from the same shared template have the same identity,
/// whatever their designations and nicknames.
pub proof fn lemma_same_template_name(a: MissileTemplate, b: MissileTemplate)
    requires
        a.associated_template_name is Some,
        opt_view(a.associated_template_name) == opt_view(b.associated_template_name),
    ensures
        missile_id(a).same_as(missile_id(b)),
{
}

/// Two missiles with the same designation and nickname have the same
/// identity.
pub proof fn lemma_same_designation_and_nickname(a: MissileTemplate, b: MissileTemplate)
    requires
        a.designation@ == b.designation@,
        a.nickname@ == b.nickname@,
    ensures
        missile_id(a).same_as(missile_id(b)),
{
}

/// Two missiles without a template name have the same identity only where
/// their designations and nicknames are the same.
pub proof fn lemma_without_template_name(a: MissileTemplate, b: MissileTemplate)
    requires
        a.associated_template_name is None,
        b.associated_template_name is None,
    ensures
        missile_id(a).same_as(missile_id(b)) <==> (a.designation@ == b.designation@ && a.nickname@
            == b.nickname@),
{
}

/// A missile of a document and the entry of a listing made from it have the
/// same identity.
pub proof fn lemma_listed_missile_same_identity(missile: MissileTemplate, listed: MissileData)
    requires
        listed.designation@ == missile.designation@,
        listed.nickname@ == missile.nickname@,
        listed.template_name@ == match missile.associated_template_name {
            Some(name) => name@,
            None => Seq::empty(),
        },
    ensures
        missile_id(missile).same_as(missile_data_id(listed)),
        missile_data_id(listed).same_as(missile_id(missile)),
{
}

} // verus!
