//! The container-service model reported to the architecture scanner.

use vstd::prelude::*;
use crate::json::{spec_quote, quote_str};
use crate::payload::strs_view;

verus! {

/// One provided HTTP resource.
#[derive(Debug, Clone)]
pub struct ContainerSupply {
    pub source_url: String,
    pub source_http_method: String,
    pub package_name: String,
    pub class_name: String,
    pub method_name: String,
}

/// The content of a resource.
pub ghost struct SupplyData {
    pub source_url: Seq<char>,
    pub source_http_method: Seq<char>,
    pub package_name: Seq<char>,
    pub class_name: Seq<char>,
    pub method_name: Seq<char>,
}

impl View for ContainerSupply {
    type V = SupplyData;

    open spec fn view(&self) -> SupplyData {
        SupplyData {
            source_url: self.source_url@,
            source_http_method: self.source_http_method@,
            package_name: self.package_name@,
            class_name: self.class_name@,
            method_name: self.method_name@,
        }
    }
}

/// The line a resource prints as.
pub open spec fn spec_supply_display(s: SupplyData) -> Seq<char> {
    s.package_name + "."@ + s.class_name + "."@ + s.method_name + " -> "@ + s.source_http_method
        + " "@ + s.source_url
}

impl ContainerSupply {
    /// `package.class.method -> METHOD url`.
    pub fn display(&self) -> (r: String)
        ensures
            r@ == spec_supply_display(self@),
    {
        let mut s: String = self.package_name.clone();
        vstd::string::StringExecFns::append(&mut s, ".");
        vstd::string::StringExecFns::append(&mut s, self.class_name.as_str());
        vstd::string::StringExecFns::append(&mut s, ".");
        vstd::string::StringExecFns::append(&mut s, self.method_name.as_str());
        vstd::string::StringExecFns::append(&mut s, " -> ");
        vstd::string::StringExecFns::append(&mut s, self.source_http_method.as_str());
        vstd::string::StringExecFns::append(&mut s, " ");
        vstd::string::StringExecFns::append(&mut s, self.source_url.as_str());
        s
    }
}

/// One outgoing HTTP call.
#[derive(Debug, Clone)]
pub struct ContainerDemand {
    pub source_caller: String,
    pub call_routes: Vec<String>,
    pub base: String,
    pub target_url: String,
    pub target_http_method: String,
    pub call_data: String,
}

/// The content of a demand.
pub ghost struct DemandData {
    pub source_caller: Seq<char>,
    pub call_routes: Seq<Seq<char>>,
    pub base: Seq<char>,
    pub target_url: Seq<char>,
    pub target_http_method: Seq<char>,
    pub call_data: Seq<char>,
}

impl View for ContainerDemand {
    type V = DemandData;

    open spec fn view(&self) -> DemandData {
        DemandData {
            source_caller: self.source_caller@,
            call_routes: strs_view(self.call_routes@),
            base: self.base@,
            target_url: self.target_url@,
            target_http_method: self.target_http_method@,
            call_data: self.call_data@,
        }
    }
}

/// One service: its provided resources and outgoing demands.
#[derive(Debug, Clone)]
pub struct ContainerService {
    pub name: String,
    pub demands: Vec<ContainerDemand>,
    pub resources: Vec<ContainerSupply>,
}

/// The views of a resource list.
pub open spec fn supplies_view(v: Seq<ContainerSupply>) -> Seq<SupplyData> {
    v.map_values(|x: ContainerSupply| x@)
}

/// The views of a demand list.
pub open spec fn demands_view(v: Seq<ContainerDemand>) -> Seq<DemandData> {
    v.map_values(|x: ContainerDemand| x@)
}

/// A relation from code to database objects.
#[derive(Debug, Clone)]
pub struct NodeRelation {
    pub source: String,
    pub target: String,
}

impl NodeRelation {
    /// `source -> target`.
    pub fn display(&self) -> (r: String)
        ensures
            r@ == self.source@ + " -> "@ + self.target@,
    {
        let mut s: String = self.source.clone();
        vstd::string::StringExecFns::append(&mut s, " -> ");
        vstd::string::StringExecFns::append(&mut s, self.target.as_str());
        s
    }
}

/// One code-to-database mapping record.
#[derive(Debug, Clone)]
pub struct CodeDatabaseRelation {
    pub package_name: String,
    pub class_name: String,
    pub function_name: String,
    pub tables: Vec<String>,
    pub sqls: Vec<String>,
    pub implementations: Vec<String>,
    pub relations: Vec<NodeRelation>,
}

/// The debug text of a string list: quoted entries between brackets.
pub open spec fn spec_str_list_debug(v: Seq<Seq<char>>, i: int) -> Seq<char>
    decreases v.len() - i,
{
    if i < 0 || i >= v.len() {
        Seq::empty()
    } else if i + 1 == v.len() {
        spec_quote(v[i])
    } else {
        spec_quote(v[i]) + ", "@ + spec_str_list_debug(v, i + 1)
    }
}

/// The relation lines, joined by commas.
pub open spec fn spec_relations_joined(v: Seq<NodeRelation>, i: int) -> Seq<char>
    decreases v.len() - i,
{
    if i < 0 || i >= v.len() {
        Seq::empty()
    } else if i + 1 == v.len() {
        v[i].source@ + " -> "@ + v[i].target@
    } else {
        v[i].source@ + " -> "@ + v[i].target@ + ", "@ + spec_relations_joined(v, i + 1)
    }
}

/// The text a mapping record prints as: its source, then its statements and
/// relations when present.
pub open spec fn spec_relation_display(d: CodeDatabaseRelation) -> Seq<char> {
    let head = "source: "@ + d.package_name@ + "."@ + d.class_name@ + "."@ + d.function_name@;
    let with_sqls = if strs_view(d.sqls@).len() > 0 {
        head + "\nsqls: ["@ + spec_str_list_debug(strs_view(d.sqls@), 0) + "]"@
    } else {
        head
    };
    if d.relations@.len() > 0 {
        with_sqls + "\nrelations: "@ + spec_relations_joined(d.relations@, 0)
    } else {
        with_sqls
    }
}

impl CodeDatabaseRelation {
    /// The text this record embeds as, in place of a `Display`
    /// implementation.
    pub fn display(&self) -> (r: String)
        ensures
            r@ == spec_relation_display(*self),
    {
        let mut s: String = "source: ".to_owned();
        vstd::string::StringExecFns::append(&mut s, self.package_name.as_str());
        vstd::string::StringExecFns::append(&mut s, ".");
        vstd::string::StringExecFns::append(&mut s, self.class_name.as_str());
        vstd::string::StringExecFns::append(&mut s, ".");
        vstd::string::StringExecFns::append(&mut s, self.function_name.as_str());
        if self.sqls.len() > 0 {
            vstd::string::StringExecFns::append(&mut s, "\nsqls: [");
            let ghost sv = strs_view(self.sqls@);
            let ghost base = s@;
            let mut i: usize = 0;
            while i < self.sqls.len()
                invariant
                    sv == strs_view(self.sqls@),
                    sv.len() == self.sqls@.len(),
                    i <= sv.len(),
                    s@ + spec_str_list_debug(sv, i as int) =~= base + spec_str_list_debug(sv, 0),
                decreases self.sqls@.len() - i,
            {
                proof {
                    assert(sv[i as int] == self.sqls@[i as int]@);
                }
                let q = quote_str(self.sqls[i].as_str());
                vstd::string::StringExecFns::append(&mut s, q.as_str());
                if i + 1 < self.sqls.len() {
                    vstd::string::StringExecFns::append(&mut s, ", ");
                }
                proof {
                    assert(s@ + spec_str_list_debug(sv, i + 1) =~= base + spec_str_list_debug(
                        sv,
                        0,
                    ));
                }
                i = i + 1;
            }
            proof {
                assert(spec_str_list_debug(sv, sv.len() as int) =~= Seq::<char>::empty());
                assert(s@ =~= base + spec_str_list_debug(sv, 0));
            }
            vstd::string::StringExecFns::append(&mut s, "]");
        }
        if self.relations.len() > 0 {
            vstd::string::StringExecFns::append(&mut s, "\nrelations: ");
            let ghost base = s@;
            let mut i: usize = 0;
            while i < self.relations.len()
                invariant
                    i <= self.relations@.len(),
                    s@ + spec_relations_joined(self.relations@, i as int) =~= base
                        + spec_relations_joined(self.relations@, 0),
                decreases self.relations@.len() - i,
            {
                let line = self.relations[i].display();
                vstd::string::StringExecFns::append(&mut s, line.as_str());
                if i + 1 < self.relations.len() {
                    vstd::string::StringExecFns::append(&mut s, ", ");
                }
                proof {
                    assert(s@ + spec_relations_joined(self.relations@, i + 1) =~= base
                        + spec_relations_joined(self.relations@, 0));
                }
                i = i + 1;
            }
            proof {
                assert(spec_relations_joined(self.relations@, self.relations@.len() as int)
                    =~= Seq::<char>::empty());
                assert(s@ =~= base + spec_relations_joined(self.relations@, 0));
            }
        }
        proof {
            assert(s@ =~= spec_relation_display(*self));
        }
        s
    }
}

} // verus!
