//! The report as JSON text: one object whose keys are the digests in
//! lowercase hexadecimal and whose values are the arrays of paths.

use vstd::prelude::*;
use vstd::string::StringExecFns;
use crate::bucket::{group_models, texts, DuplicateGroup, GroupModel};
use crate::digest::hex_text;
use crate::report::FinalReport;

verus! {

/// The error of `serde_json`, carried through as an opaque value.
#[verifier::external_type_specification]
#[verifier::external_body]
pub struct ExJsonError(serde_json::Error);

/// The JSON string literal that `serde_json` writes for a text, quotes and
/// escapes included; `None` where it refuses the text.
pub uninterp spec fn json_string(text: Seq<char>) -> Option<Seq<char>>;

/// `serde_json::to_string` on a string slice: the JSON string literal for the
/// text, or the crate's error.
#[verifier::external_body]
fn quote(text: &str) -> (quoted: Result<String, serde_json::Error>)
    ensures
        match quoted {
            Ok(literal) => json_string(text@) == Some(literal@),
            Err(_) => json_string(text@) is None,
        },
{
    serde_json::to_string(text)
}

/// Why a report could not be turned into text.
#[derive(Clone, Copy, Debug, PartialEq, Eq, Structural)]
pub enum ReportError {
    /// A digest or a path was refused as a JSON string.
    Serialization,
}

/// The parts with a comma between each two.
pub open spec fn joined(parts: Seq<Seq<char>>) -> Seq<char>
    decreases parts.len(),
{
    if parts.len() == 0 {
        Seq::empty()
    } else if parts.len() == 1 {
        parts[0]
    } else {
        joined(parts.drop_last()) + seq![','] + parts.last()
    }
}

/// A JSON array of the given elements.
pub open spec fn array_text(elements: Seq<Seq<char>>) -> Seq<char> {
    seq!['['] + joined(elements) + seq![']']
}

/// One member of a JSON object: the key, a colon, and the array of values.
pub open spec fn member_text(key: Seq<char>, values: Seq<Seq<char>>) -> Seq<char> {
    key + seq![':'] + array_text(values)
}

/// A JSON object of the given members.
pub open spec fn object_text(members: Seq<Seq<char>>) -> Seq<char> {
    seq!['{'] + joined(members) + seq!['}']
}

/// A key and its values, each a JSON string literal already.
pub struct QuotedGroup {
    pub key: String,
    pub values: Vec<String>,
}

/// The member that a quoted group makes.
pub open spec fn quoted_member(group: QuotedGroup) -> Seq<char> {
    member_text(group.key@, texts(group.values@))
}

/// The members that a run of quoted groups makes.
pub open spec fn quoted_members(groups: Seq<QuotedGroup>) -> Seq<Seq<char>> {
    Seq::new(groups.len(), |i: int| quoted_member(groups[i]))
}

/// Whether every text has a JSON string literal.
pub open spec fn all_quotable(items: Seq<Seq<char>>) -> bool {
    forall|i: int| 0 <= i < items.len() ==> json_string(#[trigger] items[i]) is Some
}

/// The JSON string literals of the texts.
pub open spec fn literals(items: Seq<Seq<char>>) -> Seq<Seq<char>> {
    Seq::new(items.len(), |i: int| json_string(items[i])->Some_0)
}

/// Whether a group can be written: its digest and every path has a JSON
/// string literal.
pub open spec fn group_quotable(group: GroupModel) -> bool {
    json_string(hex_text(group.digest)) is Some && all_quotable(group.members)
}

/// The member that a group makes in the report object.
pub open spec fn group_member(group: GroupModel) -> Seq<char> {
    member_text(json_string(hex_text(group.digest))->Some_0, literals(group.members))
}

/// The JSON text of a report: an object with one member for each group, in
/// the order of the groups; `None` where a digest or a path has no JSON
/// string literal.
pub open spec fn report_text(groups: Seq<GroupModel>) -> Option<Seq<char>> {
    if forall|i: int| 0 <= i < groups.len() ==> group_quotable(#[trigger] groups[i]) {
        Some(object_text(Seq::new(groups.len(), |i: int| group_member(groups[i]))))
    } else {
        None
    }
}

/// Appends the parts to `text` with a comma between each two.
fn append_joined(text: &mut String, parts: &Vec<String>)
    ensures
        final(text)@ == old(text)@ + joined(texts(parts@)),
{
    proof {
        reveal_strlit(",");
        assert(texts(parts@).take(0) =~= Seq::<Seq<char>>::empty());
        assert(text@ =~= old(text)@ + joined(texts(parts@).take(0)));
    }
    let mut i: usize = 0;
    while i < parts.len()
        invariant
            i <= parts@.len(),
            ","@ == seq![','],
            text@ == old(text)@ + joined(texts(parts@).take(i as int)),
        decreases parts@.len() - i,
    {
        let ghost before = texts(parts@).take(i as int);
        let ghost after = texts(parts@).take(i + 1);
        proof {
            assert(after.drop_last() =~= before);
            assert(after.last() == parts@[i as int]@);
        }
        if i > 0 {
            text.append(",");
        }
        text.append(parts[i].as_str());
        proof {
            if i == 0 {
                assert(joined(before) =~= Seq::<char>::empty());
                assert(text@ =~= old(text)@ + joined(after));
            } else {
                assert(text@ =~= old(text)@ + joined(after));
            }
        }
        i += 1;
    }
    assert(texts(parts@).take(parts@.len() as int) =~= texts(parts@));
}

/// The JSON object that quoted groups make: each key before a colon and the
/// array of its values, the members between braces with commas between them.
pub fn assemble_object(groups: &Vec<QuotedGroup>) -> (text: String)
    ensures
        text@ == object_text(quoted_members(groups@)),
{
    proof {
        reveal_strlit("{");
        reveal_strlit("}");
        reveal_strlit("[");
        reveal_strlit("]");
        reveal_strlit(":");
    }
    let mut members: Vec<String> = Vec::new();
    let mut i: usize = 0;
    assert(texts(members@) =~= quoted_members(groups@).take(0));
    while i < groups.len()
        invariant
            i <= groups@.len(),
            "["@ == seq!['['],
            "]"@ == seq![']'],
            ":"@ == seq![':'],
            texts(members@) == quoted_members(groups@).take(i as int),
        decreases groups@.len() - i,
    {
        let ghost before = members@;
        let group = &groups[i];
        let mut member = group.key.clone();
        member.append(":");
        member.append("[");
        append_joined(&mut member, &group.values);
        member.append("]");
        assert(member@ =~= quoted_member(groups@[i as int]));
        members.push(member);
        assert(texts(members@) =~= texts(before).push(member@));
        assert(texts(members@) =~= quoted_members(groups@).take(i + 1));
        i += 1;
    }
    assert(quoted_members(groups@).take(groups@.len() as int) =~= quoted_members(groups@));
    let mut text = String::from_str("{");
    append_joined(&mut text, &members);
    text.append("}");
    text
}

/// The JSON string literals of the texts, or the first refusal.
fn quote_all(items: &Vec<String>) -> (quoted: Result<Vec<String>, ReportError>)
    ensures
        match quoted {
            Ok(found) => all_quotable(texts(items@)) && texts(found@) == literals(texts(items@)),
            Err(_) => !all_quotable(texts(items@)),
        },
{
    let mut found: Vec<String> = Vec::new();
    let mut i: usize = 0;
    assert(texts(found@) =~= literals(texts(items@)).take(0));
    while i < items.len()
        invariant
            i <= items@.len(),
            forall|j: int| 0 <= j < i ==> json_string(#[trigger] texts(items@)[j]) is Some,
            texts(found@) == literals(texts(items@)).take(i as int),
        decreases items@.len() - i,
    {
        let ghost before = found@;
        match quote(items[i].as_str()) {
            Ok(literal) => {
                found.push(literal);
                assert(texts(items@)[i as int] == items@[i as int]@);
                assert(texts(found@) =~= texts(before).push(literal@));
                assert(texts(found@) =~= literals(texts(items@)).take(i + 1));
            },
            Err(_) => {
                assert(texts(items@)[i as int] == items@[i as int]@);
                return Err(ReportError::Serialization);
            },
        }
        i += 1;
    }
    assert(literals(texts(items@)).take(items@.len() as int) =~= literals(texts(items@)));
    Ok(found)
}

/// The digest and the paths of a group as JSON string literals.
fn quote_group(group: &DuplicateGroup) -> (quoted: Result<QuotedGroup, ReportError>)
    ensures
        match quoted {
            Ok(found) => group_quotable(group@) && quoted_member(found) == group_member(group@),
            Err(_) => !group_quotable(group@),
        },
{
    let hex = group.digest.to_hex();
    let key = match quote(hex.as_str()) {
        Ok(literal) => literal,
        Err(_) => {
            return Err(ReportError::Serialization);
        },
    };
    match quote_all(&group.paths) {
        Ok(values) => Ok(QuotedGroup { key, values }),
        Err(error) => Err(error),
    }
}

impl FinalReport {
    /// The report as JSON text: a single object with one member for each
    /// group, whose key is the digest in lowercase hexadecimal and whose value
    /// is the array of the group's paths.
    pub fn to_json(&self) -> (rendered: Result<String, ReportError>)
        ensures
            match rendered {
                Ok(text) => report_text(self@) == Some(text@),
                Err(_) => report_text(self@) is None,
            },
    {
        let groups = self.groups();
        let mut quoted: Vec<QuotedGroup> = Vec::new();
        let mut i: usize = 0;
        let ghost wanted = Seq::new(self@.len(), |i: int| group_member(self@[i]));
        assert(quoted_members(quoted@) =~= wanted.take(0));
        while i < groups.len()
            invariant
                i <= groups@.len(),
                group_models(groups@) == self@,
                wanted == Seq::new(self@.len(), |i: int| group_member(self@[i])),
                forall|j: int| 0 <= j < i ==> group_quotable(#[trigger] self@[j]),
                quoted_members(quoted@) == wanted.take(i as int),
            decreases groups@.len() - i,
        {
            let ghost before = quoted@;
            assert(groups@[i as int]@ == self@[i as int]);
            match quote_group(&groups[i]) {
                Ok(found) => {
                    quoted.push(found);
                    assert(quoted_members(quoted@) =~= quoted_members(before).push(
                        quoted_member(found),
                    ));
                    assert(quoted_members(quoted@) =~= wanted.take(i + 1));
                },
                Err(error) => {
                    return Err(error);
                },
            }
            i += 1;
        }
        assert(wanted.take(self@.len() as int) =~= wanted);
        Ok(assemble_object(&quoted))
    }
}

} // verus!
