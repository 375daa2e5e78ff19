//! Bus match rules for subscribing to specific messages.
//!
//! A match rule is mainly used by a peer to subscribe to specific signals,
//! as by default the bus does not send out most broadcast signals.  Rules
//! are exchanged as a single human-readable string of the form
//! `key='value',key='value',...`, independent of the binary wire format.
//!
//! Name validation (bus names, interface names, members) is out of scope
//! here: those values are carried as plain strings.  Object paths, which
//! this crate models, are validated when a rule is parsed.

use crate::strings::{is_valid_object_path, object_path_is_valid, ObjectPath};
use vstd::prelude::*;
use vstd::string::{StrSliceExecFns, StringExecFns};

verus! {

/// The type of a bus message.
#[derive(Clone, Copy, Debug, PartialEq, Eq, Hash, Structural)]
pub enum MessageType {
    Invalid,
    Error,
    MethodCall,
    MethodReturn,
    Signal,
}

/// Failures of the match-rule string grammar.
#[derive(Clone, Copy, Debug, PartialEq, Eq, Structural)]
pub enum Error {
    /// The string is not a well-formed match rule, or the rule cannot be
    /// serialized (an `Invalid` message type has no textual form).
    InvalidMatchRule,
}

/// The path or path namespace a rule matches on.
#[derive(Debug)]
pub enum MatchRulePathSpec {
    Path(ObjectPath),
    PathNamespace(ObjectPath),
}

/// Mathematical model of a [`MatchRulePathSpec`].
pub ghost enum MatchRulePathSpecView {
    Path(Seq<char>),
    PathNamespace(Seq<char>),
}

impl View for MatchRulePathSpec {
    type V = MatchRulePathSpecView;

    closed spec fn view(&self) -> MatchRulePathSpecView {
        match self {
            MatchRulePathSpec::Path(p) => MatchRulePathSpecView::Path(p@),
            MatchRulePathSpec::PathNamespace(p) => MatchRulePathSpecView::PathNamespace(p@),
        }
    }
}

impl Clone for MatchRulePathSpec {
    fn clone(&self) -> (res: Self)
        ensures
            res@ == self@,
    {
        match self {
            MatchRulePathSpec::Path(p) => MatchRulePathSpec::Path(p.clone()),
            MatchRulePathSpec::PathNamespace(p) => MatchRulePathSpec::PathNamespace(p.clone()),
        }
    }
}

impl MatchRulePathSpec {
    /// Creates an owned clone of `self`.
    fn to_owned(&self) -> (r: MatchRulePathSpec)
        ensures
            r@ == self@,
    {
        self.clone()
    }

    /// Creates an owned clone of `self`.
    pub fn into_owned(self) -> (r: MatchRulePathSpec)
        ensures
            r@ == self@,
    {
        self
    }
}

/// Mathematical model of a [`MatchRule`].
pub ghost struct MatchRuleView {
    pub msg_type: Option<MessageType>,
    pub sender: Option<Seq<char>>,
    pub interface: Option<Seq<char>>,
    pub member: Option<Seq<char>>,
    pub path_spec: Option<MatchRulePathSpecView>,
    pub destination: Option<Seq<char>>,
    pub args: Seq<Seq<char>>,
    pub arg_paths: Seq<Seq<char>>,
    pub arg0namespace: Option<Seq<char>>,
}

/// A bus match rule.
///
/// Built with [`MatchRule::builder`], serialized with
/// [`MatchRule::to_string`], and parsed back with
/// [`MatchRule::try_from`].
#[derive(Debug)]
pub struct MatchRule {
    pub(crate) msg_type: Option<MessageType>,
    pub(crate) sender: Option<String>,
    pub(crate) interface: Option<String>,
    pub(crate) member: Option<String>,
    pub(crate) path_spec: Option<MatchRulePathSpec>,
    pub(crate) destination: Option<String>,
    pub(crate) args: Vec<String>,
    pub(crate) arg_paths: Vec<ObjectPath>,
    pub(crate) arg0namespace: Option<String>,
}

impl View for MatchRule {
    type V = MatchRuleView;

    closed spec fn view(&self) -> MatchRuleView {
        MatchRuleView {
            msg_type: self.msg_type,
            sender: self.sender.deep_view(),
            interface: self.interface.deep_view(),
            member: self.member.deep_view(),
            path_spec: match self.path_spec {
                Some(p) => Some(p@),
                None => None,
            },
            destination: self.destination.deep_view(),
            args: self.args.deep_view(),
            arg_paths: self.arg_paths.deep_view(),
            arg0namespace: self.arg0namespace.deep_view(),
        }
    }
}

/// The rule with no criteria set: it matches every message.
pub open spec fn spec_empty_rule() -> MatchRuleView {
    MatchRuleView {
        msg_type: None,
        sender: None,
        interface: None,
        member: None,
        path_spec: None,
        destination: None,
        args: Seq::empty(),
        arg_paths: Seq::empty(),
        arg0namespace: None,
    }
}

impl Clone for MatchRule {
    fn clone(&self) -> (res: Self)
        ensures
            res@ == self@,
    {
        MatchRule {
            msg_type: if let Some(t) = self.msg_type {
                Some(t)
            } else {
                None
            },
            sender: clone_opt_string(&self.sender),
            interface: clone_opt_string(&self.interface),
            member: clone_opt_string(&self.member),
            path_spec: match &self.path_spec {
                Some(p) => Some(p.to_owned()),
                None => None,
            },
            destination: clone_opt_string(&self.destination),
            args: clone_string_vec(&self.args),
            arg_paths: clone_path_vec(&self.arg_paths),
            arg0namespace: clone_opt_string(&self.arg0namespace),
        }
    }
}

fn clone_opt_string(o: &Option<String>) -> (r: Option<String>)
    ensures
        r.deep_view() == o.deep_view(),
{
    match o {
        Some(s) => Some(s.clone()),
        None => None,
    }
}

fn clone_string_vec(v: &Vec<String>) -> (r: Vec<String>)
    ensures
        r.deep_view() =~= v.deep_view(),
{
    let mut r: Vec<String> = Vec::new();
    let mut i: usize = 0;
    while i < v.len()
        invariant
            0 <= i <= v@.len(),
            r@ =~= v@.take(i as int),
        decreases v@.len() - i,
    {
        r.push(v[i].clone());
        i = i + 1;
    }
    proof {
        assert(r@ =~= v@);
        assert(r.deep_view() =~= v.deep_view());
    }
    r
}

fn clone_path_vec(v: &Vec<ObjectPath>) -> (r: Vec<ObjectPath>)
    ensures
        r.deep_view() =~= v.deep_view(),
{
    let mut r: Vec<ObjectPath> = Vec::new();
    let mut i: usize = 0;
    while i < v.len()
        invariant
            0 <= i <= v@.len(),
            r@ =~= v@.take(i as int),
        decreases v@.len() - i,
    {
        r.push(v[i].clone());
        i = i + 1;
    }
    proof {
        assert(r@ =~= v@);
        assert(r.deep_view() =~= v.deep_view());
    }
    r
}

/// Builder for a [`MatchRule`].
#[derive(Debug)]
pub struct MatchRuleBuilder {
    rule: MatchRule,
}

impl View for MatchRuleBuilder {
    type V = MatchRuleView;

    closed spec fn view(&self) -> MatchRuleView {
        self.rule@
    }
}

impl MatchRuleBuilder {
    /// Set the message type to match on.
    pub fn msg_type(self, t: MessageType) -> (r: Self)
        ensures
            r@ == (MatchRuleView { msg_type: Some(t), ..self@ }),
    {
        let mut b = self;
        b.rule.msg_type = Some(t);
        b
    }

    /// Set the sender to match on.
    pub fn sender(self, value: &str) -> (r: Self)
        ensures
            r@ == (MatchRuleView { sender: Some(value@), ..self@ }),
    {
        let mut b = self;
        b.rule.sender = Some(value.to_owned());
        b
    }

    /// Set the interface to match on.
    pub fn interface(self, value: &str) -> (r: Self)
        ensures
            r@ == (MatchRuleView { interface: Some(value@), ..self@ }),
    {
        let mut b = self;
        b.rule.interface = Some(value.to_owned());
        b
    }

    /// Set the member to match on.
    pub fn member(self, value: &str) -> (r: Self)
        ensures
            r@ == (MatchRuleView { member: Some(value@), ..self@ }),
    {
        let mut b = self;
        b.rule.member = Some(value.to_owned());
        b
    }

    /// Set the destination to match on.
    pub fn destination(self, value: &str) -> (r: Self)
        ensures
            r@ == (MatchRuleView { destination: Some(value@), ..self@ }),
    {
        let mut b = self;
        b.rule.destination = Some(value.to_owned());
        b
    }

    /// Match messages whose first argument is within the given namespace.
    pub fn arg0namespace(self, value: &str) -> (r: Self)
        ensures
            r@ == (MatchRuleView { arg0namespace: Some(value@), ..self@ }),
    {
        let mut b = self;
        b.rule.arg0namespace = Some(value.to_owned());
        b
    }

    /// Match on an exact object path; fails on a syntactically invalid one.
    pub fn path(self, value: &str) -> (r: Result<Self, Error>)
        ensures
            match r {
                Ok(b) => is_valid_object_path(value@) && b@ == (MatchRuleView {
                    path_spec: Some(MatchRulePathSpecView::Path(value@)),
                    ..self@
                }),
                Err(e) => !is_valid_object_path(value@) && e == Error::InvalidMatchRule,
            },
    {
        if !object_path_is_valid(value) {
            return Err(Error::InvalidMatchRule);
        }
        let mut b = self;
        b.rule.path_spec = Some(MatchRulePathSpec::Path(ObjectPath::new(value)));
        Ok(b)
    }

    /// Match on a path namespace; fails on a syntactically invalid path.
    pub fn path_namespace(self, value: &str) -> (r: Result<Self, Error>)
        ensures
            match r {
                Ok(b) => is_valid_object_path(value@) && b@ == (MatchRuleView {
                    path_spec: Some(MatchRulePathSpecView::PathNamespace(value@)),
                    ..self@
                }),
                Err(e) => !is_valid_object_path(value@) && e == Error::InvalidMatchRule,
            },
    {
        if !object_path_is_valid(value) {
            return Err(Error::InvalidMatchRule);
        }
        let mut b = self;
        b.rule.path_spec = Some(MatchRulePathSpec::PathNamespace(ObjectPath::new(value)));
        Ok(b)
    }

    /// Append an argument to match on.
    pub fn add_arg(self, value: &str) -> (r: Self)
        ensures
            r@ == (MatchRuleView {
                args: self@.args.push(value@),
                ..self@
            }),
    {
        let mut b = self;
        b.rule.args.push(value.to_owned());
        proof {
            assert(b@.args =~= self@.args.push(value@));
        }
        b
    }

    /// Append an argument path to match on; fails on an invalid path.
    pub fn add_arg_path(self, value: &str) -> (r: Result<Self, Error>)
        ensures
            match r {
                Ok(b) => is_valid_object_path(value@) && b@ == (MatchRuleView {
                    arg_paths: self@.arg_paths.push(value@),
                    ..self@
                }),
                Err(e) => !is_valid_object_path(value@) && e == Error::InvalidMatchRule,
            },
    {
        if !object_path_is_valid(value) {
            return Err(Error::InvalidMatchRule);
        }
        let mut b = self;
        b.rule.arg_paths.push(ObjectPath::new(value));
        proof {
            assert(b@.arg_paths =~= self@.arg_paths.push(value@));
        }
        Ok(b)
    }

    /// Finish building.
    pub fn build(self) -> (r: MatchRule)
        ensures
            r@ == self@,
    {
        self.rule
    }
}

impl MatchRule {
    /// Create a builder for a match rule, starting from the rule with no
    /// criteria.
    pub fn builder() -> (r: MatchRuleBuilder)
        ensures
            r@ == spec_empty_rule(),
    {
        let b = MatchRuleBuilder {
            rule: MatchRule {
                msg_type: None,
                sender: None,
                interface: None,
                member: None,
                path_spec: None,
                destination: None,
                args: Vec::new(),
                arg_paths: Vec::new(),
                arg0namespace: None,
            },
        };
        proof {
            assert(b@.args =~= spec_empty_rule().args);
            assert(b@.arg_paths =~= spec_empty_rule().arg_paths);
        }
        b
    }

    /// The sender, if set.
    pub fn sender(&self) -> (r: Option<&String>)
        ensures
            r.deep_view() == self@.sender,
    {
        self.sender.as_ref()
    }

    /// The message type, if set.
    pub fn msg_type(&self) -> (r: Option<MessageType>)
        ensures
            r == self@.msg_type,
    {
        self.msg_type
    }

    /// The interface, if set.
    pub fn interface(&self) -> (r: Option<&String>)
        ensures
            r.deep_view() == self@.interface,
    {
        self.interface.as_ref()
    }

    /// The member name, if set.
    pub fn member(&self) -> (r: Option<&String>)
        ensures
            r.deep_view() == self@.member,
    {
        self.member.as_ref()
    }

    /// The path or path namespace, if set.
    pub fn path_spec(&self) -> (r: Option<&MatchRulePathSpec>)
        ensures
            match r {
                Some(p) => self@.path_spec == Some(p@),
                None => self@.path_spec is None,
            },
    {
        self.path_spec.as_ref()
    }

    /// The destination, if set.
    pub fn destination(&self) -> (r: Option<&String>)
        ensures
            r.deep_view() == self@.destination,
    {
        self.destination.as_ref()
    }

    /// The arguments.
    pub fn args(&self) -> (r: &Vec<String>)
        ensures
            r.deep_view() == self@.args,
    {
        &self.args
    }

    /// The argument paths.
    pub fn arg_paths(&self) -> (r: &Vec<ObjectPath>)
        ensures
            r.deep_view() == self@.arg_paths,
    {
        &self.arg_paths
    }

    /// The namespace the first argument must fall in, if set.
    pub fn arg0namespace(&self) -> (r: Option<&String>)
        ensures
            r.deep_view() == self@.arg0namespace,
    {
        self.arg0namespace.as_ref()
    }

    /// Creates an owned clone of `self`.
    pub fn to_owned(&self) -> (r: MatchRule)
        ensures
            r@ == self@,
    {
        self.clone()
    }

    /// Creates an owned clone of `self`.
    pub fn into_owned(self) -> (r: MatchRule)
        ensures
            r@ == self@,
    {
        self
    }
}

/// The textual name of a message type inside a rule string.
pub open spec fn spec_msg_type_str(t: MessageType) -> Seq<char>
    recommends
        t != MessageType::Invalid,
{
    match t {
        MessageType::Invalid => Seq::empty(),
        MessageType::Error => "error"@,
        MessageType::MethodCall => "method_call"@,
        MessageType::MethodReturn => "method_return"@,
        MessageType::Signal => "signal"@,
    }
}

/// `acc` extended with one `key='value'` component, comma-separated from
/// what is already there.
pub open spec fn spec_append_component(acc: Seq<char>, key: Seq<char>, value: Seq<char>) -> Seq<
    char,
> {
    let piece = key + "='"@ + value + "'"@;
    if acc.len() == 0 {
        piece
    } else {
        acc + ","@ + piece
    }
}

/// The serialized form of a rule: its set criteria in the fixed order
/// type, sender, interface, member, destination, path.  Argument criteria
/// are not part of the serialized form.
pub open spec fn spec_rule_string(v: MatchRuleView) -> Seq<char> {
    let s1 = match v.msg_type {
        Some(t) => spec_append_component(Seq::empty(), "type"@, spec_msg_type_str(t)),
        None => Seq::empty(),
    };
    let s2 = match v.sender {
        Some(x) => spec_append_component(s1, "sender"@, x),
        None => s1,
    };
    let s3 = match v.interface {
        Some(x) => spec_append_component(s2, "interface"@, x),
        None => s2,
    };
    let s4 = match v.member {
        Some(x) => spec_append_component(s3, "member"@, x),
        None => s3,
    };
    let s5 = match v.destination {
        Some(x) => spec_append_component(s4, "destination"@, x),
        None => s4,
    };
    match v.path_spec {
        Some(MatchRulePathSpecView::Path(p)) => spec_append_component(s5, "path"@, p),
        Some(MatchRulePathSpecView::PathNamespace(p)) => spec_append_component(
            s5,
            "path_namespace"@,
            p,
        ),
        None => s5,
    }
}

/// Append one `key='value'` component to a rule string under construction,
/// separating it with a comma when the string is not empty.
pub fn add_match_rule_string_component(rule: &mut String, key: &str, value: &str)
    ensures
        final(rule)@ == spec_append_component(old(rule)@, key@, value@),
{
    if !rule.as_str().is_empty() {
        rule.append(",");
    }
    rule.append(key);
    rule.append("='");
    rule.append(value);
    rule.append("'");
    proof {
        assert(rule@ =~= spec_append_component(old(rule)@, key@, value@));
    }
}

impl MatchRule {
    /// The rule's textual form.  Fails when the message type is `Invalid`,
    /// which has no textual name.
    pub fn to_string(&self) -> (r: Result<String, Error>)
        ensures
            match r {
                Ok(s) => self@.msg_type != Some(MessageType::Invalid) && s@ == spec_rule_string(
                    self@,
                ),
                Err(e) => self@.msg_type == Some(MessageType::Invalid) && e
                    == Error::InvalidMatchRule,
            },
    {
        let mut s = String::new();
        if let Some(msg_type) = self.msg_type {
            let type_str = match msg_type {
                MessageType::Error => "error",
                MessageType::Invalid => {
                    return Err(Error::InvalidMatchRule);
                },
                MessageType::MethodCall => "method_call",
                MessageType::MethodReturn => "method_return",
                MessageType::Signal => "signal",
            };
            add_match_rule_string_component(&mut s, "type", type_str);
        }
        if let Some(sender) = &self.sender {
            add_match_rule_string_component(&mut s, "sender", sender.as_str());
        }
        if let Some(interface) = &self.interface {
            add_match_rule_string_component(&mut s, "interface", interface.as_str());
        }
        if let Some(member) = &self.member {
            add_match_rule_string_component(&mut s, "member", member.as_str());
        }
        if let Some(destination) = &self.destination {
            add_match_rule_string_component(&mut s, "destination", destination.as_str());
        }
        if let Some(path_spec) = &self.path_spec {
            match path_spec {
                MatchRulePathSpec::Path(path) => {
                    add_match_rule_string_component(&mut s, "path", path.as_str());
                },
                MatchRulePathSpec::PathNamespace(ns) => {
                    add_match_rule_string_component(&mut s, "path_namespace", ns.as_str());
                },
            }
        }
        Ok(s)
    }
}

/// Index of the first occurrence of `c` in `s`, or `s.len()` when `c` does
/// not occur.
pub open spec fn first_index_of(s: Seq<char>, c: char) -> int
    decreases s.len(),
{
    if s.len() == 0 {
        0
    } else if s[0] == c {
        0
    } else {
        1 + first_index_of(s.skip(1), c)
    }
}

proof fn lemma_first_index_of(s: Seq<char>, c: char)
    ensures
        0 <= first_index_of(s, c) <= s.len(),
        first_index_of(s, c) < s.len() ==> s[first_index_of(s, c)] == c,
        forall|i: int| 0 <= i < first_index_of(s, c) ==> s[i] != c,
    decreases s.len(),
{
    if s.len() == 0 {
    } else if s[0] == c {
    } else {
        lemma_first_index_of(s.skip(1), c);
        let k = first_index_of(s.skip(1), c);
        assert forall|i: int| 0 <= i < 1 + k implies s[i] != c by {
            if i > 0 {
                assert(s.skip(1)[i - 1] == s[i]);
            }
        }
    }
}

proof fn lemma_first_index_of_matches(s: Seq<char>, c: char, r: int)
    requires
        0 <= r <= s.len(),
        forall|i: int| 0 <= i < r ==> s[i] != c,
        r < s.len() ==> s[r] == c,
    ensures
        first_index_of(s, c) == r,
    decreases s.len(),
{
    if s.len() == 0 {
    } else if r == 0 {
    } else {
        assert(s[0] != c);
        assert forall|i: int| 0 <= i < r - 1 implies s.skip(1)[i] != c by {
            assert(s.skip(1)[i] == s[i + 1]);
        }
        assert(r - 1 < s.skip(1).len() ==> s.skip(1)[r - 1] == c);
        lemma_first_index_of_matches(s.skip(1), c, r - 1);
    }
}

/// Position of the first `c` in `s` within `[from, end)`, or `end` when
/// there is none.
fn find_char_in(s: &str, from: usize, end: usize, c: char) -> (r: usize)
    requires
        from <= end <= s@.len(),
    ensures
        from <= r <= end,
        r - from == first_index_of(s@.subrange(from as int, end as int), c),
        r < end ==> s@[r as int] == c,
{
    let ghost sub = s@.subrange(from as int, end as int);
    let mut i: usize = from;
    while i < end
        invariant
            from <= i <= end <= s@.len(),
            sub == s@.subrange(from as int, end as int),
            forall|j: int| from <= j < i ==> s@[j] != c,
        decreases end - i,
    {
        if s.get_char(i) == c {
            proof {
                assert forall|j: int| 0 <= j < i - from implies sub[j] != c by {
                    assert(sub[j] == s@[from + j]);
                }
                assert(sub[i - from] == s@[i as int]);
                lemma_first_index_of_matches(sub, c, i - from);
            }
            return i;
        }
        i = i + 1;
    }
    proof {
        assert forall|j: int| 0 <= j < end - from implies sub[j] != c by {
            assert(sub[j] == s@[from + j]);
        }
        lemma_first_index_of_matches(sub, c, (end - from) as int);
    }
    end
}

/// Whether two strings hold the same characters.
fn str_eq(a: &str, b: &str) -> (r: bool)
    ensures
        r == (a@ == b@),
{
    let na = a.unicode_len();
    let nb = b.unicode_len();
    if na != nb {
        proof {
            if a@ == b@ {
                assert(a@.len() == b@.len());
            }
        }
        return false;
    }
    let mut i: usize = 0;
    while i < na
        invariant
            0 <= i <= na,
            na == a@.len(),
            na == nb,
            nb == b@.len(),
            forall|j: int| 0 <= j < i ==> a@[j] == b@[j],
        decreases na - i,
    {
        if a.get_char(i) != b.get_char(i) {
            proof {
                if a@ == b@ {
                    assert(a@[i as int] == b@[i as int]);
                }
            }
            return false;
        }
        i = i + 1;
    }
    proof {
        assert(a@ =~= b@);
    }
    true
}

/// The message type a rule-string value names, if any.
pub open spec fn spec_msg_type_of(value: Seq<char>) -> Option<MessageType> {
    if value == "error"@ {
        Some(MessageType::Error)
    } else if value == "method_call"@ {
        Some(MessageType::MethodCall)
    } else if value == "method_return"@ {
        Some(MessageType::MethodReturn)
    } else if value == "signal"@ {
        Some(MessageType::Signal)
    } else {
        None
    }
}

/// One `key='value'` component applied to the rule built so far, or `None`
/// when the component is malformed: no `=`, an empty key, a value not
/// wrapped in single quotes, an unknown key, an unknown message type, or an
/// invalid object path.
pub open spec fn spec_apply_component(comp: Seq<char>, acc: MatchRuleView) -> Option<
    MatchRuleView,
> {
    let e = first_index_of(comp, '=');
    if e >= comp.len() {
        None
    } else {
        let key = comp.take(e);
        let value = comp.skip(e + 1);
        if key.len() == 0 || value.len() < 3 || value[0] != '\'' || value[value.len() - 1]
            != '\'' {
            None
        } else {
            let inner = value.subrange(1, value.len() - 1);
            if key == "type"@ {
                match spec_msg_type_of(inner) {
                    Some(t) => Some(MatchRuleView { msg_type: Some(t), ..acc }),
                    None => None,
                }
            } else if key == "sender"@ {
                Some(MatchRuleView { sender: Some(inner), ..acc })
            } else if key == "interface"@ {
                Some(MatchRuleView { interface: Some(inner), ..acc })
            } else if key == "member"@ {
                Some(MatchRuleView { member: Some(inner), ..acc })
            } else if key == "path"@ {
                if is_valid_object_path(inner) {
                    Some(
                        MatchRuleView {
                            path_spec: Some(MatchRulePathSpecView::Path(inner)),
                            ..acc
                        },
                    )
                } else {
                    None
                }
            } else if key == "path_namespace"@ {
                if is_valid_object_path(inner) {
                    Some(
                        MatchRuleView {
                            path_spec: Some(MatchRulePathSpecView::PathNamespace(inner)),
                            ..acc
                        },
                    )
                } else {
                    None
                }
            } else if key == "destination"@ {
                Some(MatchRuleView { destination: Some(inner), ..acc })
            } else if key == "arg0namespace"@ {
                Some(MatchRuleView { arg0namespace: Some(inner), ..acc })
            } else if key == "arg"@ {
                Some(MatchRuleView { args: acc.args.push(inner), ..acc })
            } else if key == "arg_path"@ {
                if is_valid_object_path(inner) {
                    Some(MatchRuleView { arg_paths: acc.arg_paths.push(inner), ..acc })
                } else {
                    None
                }
            } else {
                None
            }
        }
    }
}

/// The comma-separated components of `s` applied in order to the rule built
/// so far.
pub open spec fn spec_parse_components(s: Seq<char>, acc: MatchRuleView) -> Option<MatchRuleView>
    decreases s.len(),
{
    let k = first_index_of(s, ',');
    if 0 <= k < s.len() {
        match spec_apply_component(s.take(k), acc) {
            Some(acc2) => spec_parse_components(s.skip(k + 1), acc2),
            None => None,
        }
    } else {
        spec_apply_component(s, acc)
    }
}

/// The rule a rule string denotes, if it is well-formed.
pub open spec fn spec_parse_rule(s: Seq<char>) -> Option<MatchRuleView> {
    spec_parse_components(s, spec_empty_rule())
}

/// Apply the component at `s[start..end]` to `rule`.
fn apply_component(rule: MatchRule, s: &str, start: usize, end: usize) -> (r: Result<
    MatchRule,
    Error,
>)
    requires
        start <= end <= s@.len(),
    ensures
        match r {
            Ok(r2) => spec_apply_component(s@.subrange(start as int, end as int), rule@)
                == Some(r2@),
            Err(e) => {
                &&& spec_apply_component(s@.subrange(start as int, end as int), rule@) is None
                &&& e == Error::InvalidMatchRule
            },
        },
{
    let ghost comp = s@.subrange(start as int, end as int);
    let eq = find_char_in(s, start, end, '=');
    if eq == end || eq == start {
        return Err(Error::InvalidMatchRule);
    }
    let ghost e = (eq - start) as int;
    let ghost value = comp.skip(e + 1);
    proof {
        assert(value.len() == end - eq - 1);
    }
    if end - (eq + 1) < 3 {
        return Err(Error::InvalidMatchRule);
    }
    proof {
        assert(value[0] == s@[eq + 1]);
        assert(value[value.len() - 1] == s@[end - 1]);
    }
    if s.get_char(eq + 1) != '\'' || s.get_char(end - 1) != '\'' {
        return Err(Error::InvalidMatchRule);
    }
    let key = s.substring_char(start, eq);
    let inner = s.substring_char(eq + 2, end - 1);
    proof {
        assert(key@ =~= comp.take(e));
        assert(inner@ =~= value.subrange(1, value.len() - 1));
    }
    let mut rule = rule;
    if str_eq(key, "type") {
        if str_eq(inner, "error") {
            rule.msg_type = Some(MessageType::Error);
        } else if str_eq(inner, "method_call") {
            rule.msg_type = Some(MessageType::MethodCall);
        } else if str_eq(inner, "method_return") {
            rule.msg_type = Some(MessageType::MethodReturn);
        } else if str_eq(inner, "signal") {
            rule.msg_type = Some(MessageType::Signal);
        } else {
            return Err(Error::InvalidMatchRule);
        }
        Ok(rule)
    } else if str_eq(key, "sender") {
        rule.sender = Some(inner.to_owned());
        Ok(rule)
    } else if str_eq(key, "interface") {
        rule.interface = Some(inner.to_owned());
        Ok(rule)
    } else if str_eq(key, "member") {
        rule.member = Some(inner.to_owned());
        Ok(rule)
    } else if str_eq(key, "path") {
        if !object_path_is_valid(inner) {
            return Err(Error::InvalidMatchRule);
        }
        rule.path_spec = Some(MatchRulePathSpec::Path(ObjectPath::new(inner)));
        Ok(rule)
    } else if str_eq(key, "path_namespace") {
        if !object_path_is_valid(inner) {
            return Err(Error::InvalidMatchRule);
        }
        rule.path_spec = Some(MatchRulePathSpec::PathNamespace(ObjectPath::new(inner)));
        Ok(rule)
    } else if str_eq(key, "destination") {
        rule.destination = Some(inner.to_owned());
        Ok(rule)
    } else if str_eq(key, "arg0namespace") {
        rule.arg0namespace = Some(inner.to_owned());
        Ok(rule)
    } else if str_eq(key, "arg") {
        let ghost before = rule@;
        rule.args.push(inner.to_owned());
        proof {
            assert(rule@.args =~= before.args.push(inner@));
        }
        Ok(rule)
    } else if str_eq(key, "arg_path") {
        if !object_path_is_valid(inner) {
            return Err(Error::InvalidMatchRule);
        }
        let ghost before = rule@;
        rule.arg_paths.push(ObjectPath::new(inner));
        proof {
            assert(rule@.arg_paths =~= before.arg_paths.push(inner@));
        }
        Ok(rule)
    } else {
        Err(Error::InvalidMatchRule)
    }
}

impl MatchRule {
    /// Parse a rule from its textual form.  Fails with `InvalidMatchRule`
    /// exactly when the string is not a well-formed rule.
    pub fn try_from(s: &str) -> (r: Result<MatchRule, Error>)
        ensures
            match r {
                Ok(rule) => spec_parse_rule(s@) == Some(rule@),
                Err(e) => spec_parse_rule(s@) is None && e == Error::InvalidMatchRule,
            },
    {
        let n = s.unicode_len();
        let mut rule = MatchRule::builder().build();
        let mut pos: usize = 0;
        proof {
            assert(s@.skip(0) =~= s@);
        }
        loop
            invariant
                0 <= pos <= n,
                n == s@.len(),
                spec_parse_rule(s@) == spec_parse_components(s@.skip(pos as int), rule@),
            decreases n - pos,
        {
            let k = find_char_in(s, pos, n, ',');
            proof {
                assert(s@.subrange(pos as int, n as int) =~= s@.skip(pos as int));
                assert(s@.skip(pos as int).take(k - pos) =~= s@.subrange(pos as int, k as int));
                if k < n {
                    assert(s@.skip(pos as int).skip(k - pos + 1) =~= s@.skip(k + 1));
                }
            }
            rule = match apply_component(rule, s, pos, k) {
                Ok(r2) => r2,
                Err(e) => {
                    return Err(e);
                },
            };
            if k == n {
                return Ok(rule);
            }
            pos = k + 1;
        }
    }
}

/// Owned sibling of [`MatchRule`].
#[derive(Debug)]
pub struct OwnedMatchRule(MatchRule);

impl View for OwnedMatchRule {
    type V = MatchRuleView;

    closed spec fn view(&self) -> MatchRuleView {
        self.0@
    }
}

impl Clone for OwnedMatchRule {
    fn clone(&self) -> (res: Self)
        ensures
            res@ == self@,
    {
        OwnedMatchRule(self.0.clone())
    }
}

impl OwnedMatchRule {
    /// Convert to the inner `MatchRule`, consuming `self`.
    pub fn into_inner(self) -> (r: MatchRule)
        ensures
            r@ == self@,
    {
        self.0
    }

    /// Get a reference to the inner `MatchRule`.
    pub fn inner(&self) -> (r: &MatchRule)
        ensures
            r@ == self@,
    {
        &self.0
    }

    /// Parse an owned rule from its textual form.
    pub fn try_from(value: &str) -> (r: Result<OwnedMatchRule, Error>)
        ensures
            match r {
                Ok(rule) => spec_parse_rule(value@) == Some(rule@),
                Err(e) => spec_parse_rule(value@) is None && e == Error::InvalidMatchRule,
            },
    {
        match MatchRule::try_from(value) {
            Ok(rule) => Ok(OwnedMatchRule(rule.into_owned())),
            Err(e) => Err(e),
        }
    }
}

impl From<MatchRule> for OwnedMatchRule {
    fn from(rule: MatchRule) -> (r: OwnedMatchRule) {
        OwnedMatchRule(rule)
    }
}

impl vstd::std_specs::convert::FromSpecImpl<MatchRule> for OwnedMatchRule {
    open spec fn obeys_from_spec() -> bool {
        true
    }

    closed spec fn from_spec(rule: MatchRule) -> OwnedMatchRule {
        OwnedMatchRule(rule)
    }
}

impl From<OwnedMatchRule> for MatchRule {
    fn from(o: OwnedMatchRule) -> (r: MatchRule) {
        o.0
    }
}

impl vstd::std_specs::convert::FromSpecImpl<OwnedMatchRule> for MatchRule {
    open spec fn obeys_from_spec() -> bool {
        true
    }

    closed spec fn from_spec(o: OwnedMatchRule) -> MatchRule {
        o.0
    }
}

} // verus!
