//! The Java API analyser: reads scanned class records and derives the HTTP
//! resources a controller provides and the calls it makes through a REST
//! client.

use vstd::prelude::*;
use crate::archguard::{
    demands_view, supplies_view, ContainerDemand, ContainerService, ContainerSupply, DemandData,
    SupplyData,
};
use crate::chapi::{
    AnnotationData, CallData, CodeDataStruct, CodeFunction, FunctionData, KvData, StructData,
};
use crate::payload::strs_view;
use crate::strutil::{
    spec_after_last, spec_contains_char, spec_lower, spec_replace, spec_starts_with,
    spec_trim_matches, after_last, contains_char, ends_with_str, replace_all, starts_with_str,
    to_ascii_lower, trim_matches, string_eq_str,
};

verus! {

/// The route-derivation state while walking a function's annotations.
pub ghost struct RouteState {
    pub http_method: Seq<char>,
    pub route: Seq<char>,
}

/// The HTTP method a mapping annotation names, if any.
pub open spec fn spec_http_ann_method(name: Seq<char>) -> Option<Seq<char>> {
    if name == "GetMapping"@ {
        Some("Get"@)
    } else if name == "PostMapping"@ {
        Some("Post"@)
    } else if name == "DeleteMapping"@ {
        Some("Delete"@)
    } else if name == "PutMapping"@ {
        Some("Put"@)
    } else if name == "PatchMapping"@ {
        Some("Patch"@)
    } else {
        None
    }
}

/// The HTTP method a request-mapping value names, if any.
pub open spec fn spec_req_method(v: Seq<char>) -> Option<Seq<char>> {
    if v == "RequestMethod.GET"@ || v == "GET"@ {
        Some("Get"@)
    } else if v == "RequestMethod.POST"@ || v == "POST"@ {
        Some("Post"@)
    } else if v == "RequestMethod.DELETE"@ || v == "DELETE"@ {
        Some("Delete"@)
    } else if v == "RequestMethod.PUT"@ || v == "PUT"@ {
        Some("Put"@)
    } else if v == "RequestMethod.PATCH"@ || v == "PATCH"@ {
        Some("Patch"@)
    } else {
        None
    }
}

/// The first key-value pair under `key`.
pub open spec fn spec_find_kv(kvs: Seq<KvData>, key: Seq<char>) -> Option<KvData>
    decreases kvs.len(),
{
    if kvs.len() == 0 {
        None
    } else if kvs[0].key == key {
        Some(kvs[0])
    } else {
        spec_find_kv(kvs.skip(1), key)
    }
}

/// One annotation applied to the route state.
pub open spec fn spec_route_step(st: RouteState, ann: AnnotationData, base: Seq<char>) -> RouteState {
    let st1 = match spec_http_ann_method(ann.name) {
        Some(m) => {
            if ann.key_values.len() > 0 {
                let pure = spec_trim_matches(ann.key_values[0].value, '"');
                RouteState {
                    http_method: m,
                    route: if base.len() > 0 {
                        base + pure
                    } else {
                        pure
                    },
                }
            } else {
                RouteState { http_method: m, route: st.route }
            }
        },
        None => st,
    };
    if ann.name == "RequestMapping"@ {
        let url = spec_find_kv(ann.key_values, "value"@);
        let method = spec_find_kv(ann.key_values, "method"@);
        if url is Some && method is Some {
            let hm = match spec_req_method(method->Some_0.value) {
                Some(m) => m,
                None => st1.http_method,
            };
            let pure = spec_trim_matches(url->Some_0.value, '"');
            RouteState {
                http_method: hm,
                route: if base.len() > 0 {
                    base + pure
                } else {
                    pure
                },
            }
        } else {
            st1
        }
    } else {
        st1
    }
}

/// The annotations up to `i` folded over the route state.
pub open spec fn spec_route_fold(anns: Seq<AnnotationData>, base: Seq<char>, i: int) -> RouteState
    decreases i,
{
    if i <= 0 {
        RouteState { http_method: Seq::empty(), route: base }
    } else {
        spec_route_step(spec_route_fold(anns, base, i - 1), anns[i - 1], base)
    }
}

/// The resource a controller method provides, when one of its annotations
/// names an HTTP method: the derived route, given a leading slash and with
/// doubled slashes collapsed.
pub open spec fn spec_resource_of(func: FunctionData, base: Seq<char>, node: StructData) -> Option<
    SupplyData,
> {
    let st = spec_route_fold(func.annotations, base, func.annotations.len() as int);
    if st.http_method.len() > 0 {
        let led = if !spec_starts_with(st.route, "/"@) {
            "/"@ + st.route
        } else {
            st.route
        };
        let cleaned = spec_replace(led, "//"@, "/"@);
        Some(
            SupplyData {
                source_url: cleaned,
                source_http_method: st.http_method,
                package_name: node.package,
                class_name: node.node_name,
                method_name: func.name,
            },
        )
    } else {
        None
    }
}

fn find_kv<'a>(kvs: &'a Vec<crate::chapi::AnnotationKeyValue>, key: &str) -> (r: Option<
    &'a crate::chapi::AnnotationKeyValue,
>)
    ensures
        r matches Some(kv) ==> spec_find_kv(crate::chapi::kvs_view(kvs@), key@) == Some(kv@),
        r is None <==> spec_find_kv(crate::chapi::kvs_view(kvs@), key@) is None,
{
    let ghost m = crate::chapi::kvs_view(kvs@);
    let mut i: usize = 0;
    proof {
        assert(m.skip(0) =~= m);
    }
    while i < kvs.len()
        invariant
            m == crate::chapi::kvs_view(kvs@),
            m.len() == kvs@.len(),
            i <= kvs@.len(),
            spec_find_kv(m, key@) == spec_find_kv(m.skip(i as int), key@),
        decreases kvs@.len() - i,
    {
        proof {
            assert(m.skip(i as int)[0] == m[i as int]);
            assert(m.skip(i as int).skip(1) =~= m.skip(i + 1));
        }
        if string_eq_str(&kvs[i].key, key) {
            return Some(&kvs[i]);
        }
        i = i + 1;
    }
    None
}

/// The analyser: the resources and demands gathered so far.
#[derive(Debug, Clone)]
pub struct JavaApiAnalyser {
    pub resources: Vec<ContainerSupply>,
    pub demands: Vec<ContainerDemand>,
}

impl JavaApiAnalyser {
    /// An analyser with nothing gathered.
    pub fn new() -> (r: JavaApiAnalyser)
        ensures
            r.resources@.len() == 0,
            r.demands@.len() == 0,
    {
        JavaApiAnalyser { resources: Vec::new(), demands: Vec::new() }
    }

    /// Derives the resource one controller method provides, appending it to
    /// the gathered resources; the demands are untouched.
    pub fn create_resource(&mut self, func: &CodeFunction, base_url: &str, node: &CodeDataStruct)
        ensures
            supplies_view(final(self).resources@) == supplies_view(old(self).resources@) + (match
            spec_resource_of(func@, base_url@, node@) {
                Some(s) => seq![s],
                None => Seq::empty(),
            }),
            final(self).demands@ == old(self).demands@,
    {
        let ghost anns = func@.annotations;
        let mut http_method: String = String::new();
        let mut route: String = base_url.to_owned();
        let mut i: usize = 0;
        while i < func.annotations.len()
            invariant
                anns == func@.annotations,
                anns.len() == func.annotations@.len(),
                forall|j: int|
                    0 <= j < anns.len() ==> anns[j] == (#[trigger] func.annotations@[j])@,
                i <= anns.len(),
                (RouteState { http_method: http_method@, route: route@ }) == spec_route_fold(
                    anns,
                    base_url@,
                    i as int,
                ),
            decreases anns.len() - i,
        {
            let ann = &func.annotations[i];
            let ghost st0 = spec_route_fold(anns, base_url@, i as int);
            let name = &ann.name;
            let mut is_http = true;
            if string_eq_str(name, "GetMapping") {
                http_method = "Get".to_owned();
            } else if string_eq_str(name, "PostMapping") {
                http_method = "Post".to_owned();
            } else if string_eq_str(name, "DeleteMapping") {
                http_method = "Delete".to_owned();
            } else if string_eq_str(name, "PutMapping") {
                http_method = "Put".to_owned();
            } else if string_eq_str(name, "PatchMapping") {
                http_method = "Patch".to_owned();
            } else {
                is_http = false;
            }
            if is_http && ann.key_values.len() > 0 {
                let pure = trim_matches(ann.key_values[0].value.as_str(), '"');
                if base_url.unicode_len() > 0 {
                    let mut r2: String = base_url.to_owned();
                    vstd::string::StringExecFns::append(&mut r2, pure.as_str());
                    route = r2;
                } else {
                    route = pure;
                }
            }
            if string_eq_str(name, "RequestMapping") {
                let opt_url = find_kv(&ann.key_values, "value");
                let opt_method = find_kv(&ann.key_values, "method");
                match (opt_url, opt_method) {
                    (Some(url), Some(method)) => {
                        let mv = &method.value;
                        if string_eq_str(mv, "RequestMethod.GET") || string_eq_str(mv, "GET") {
                            http_method = "Get".to_owned();
                        } else if string_eq_str(mv, "RequestMethod.POST") || string_eq_str(
                            mv,
                            "POST",
                        ) {
                            http_method = "Post".to_owned();
                        } else if string_eq_str(mv, "RequestMethod.DELETE") || string_eq_str(
                            mv,
                            "DELETE",
                        ) {
                            http_method = "Delete".to_owned();
                        } else if string_eq_str(mv, "RequestMethod.PUT") || string_eq_str(
                            mv,
                            "PUT",
                        ) {
                            http_method = "Put".to_owned();
                        } else if string_eq_str(mv, "RequestMethod.PATCH") || string_eq_str(
                            mv,
                            "PATCH",
                        ) {
                            http_method = "Patch".to_owned();
                        }
                        let pure = trim_matches(url.value.as_str(), '"');
                        if base_url.unicode_len() > 0 {
                            let mut r2: String = base_url.to_owned();
                            vstd::string::StringExecFns::append(&mut r2, pure.as_str());
                            route = r2;
                        } else {
                            route = pure;
                        }
                    },
                    _ => {},
                }
            }
            proof {
                assert(anns[i as int] == func.annotations@[i as int]@);
                assert((RouteState { http_method: http_method@, route: route@ })
                    == spec_route_step(st0, anns[i as int], base_url@));
            }
            i = i + 1;
        }
        if http_method.as_str().unicode_len() > 0 {
            let led: String = if !starts_with_str(route.as_str(), "/") {
                let mut r2: String = "/".to_owned();
                vstd::string::StringExecFns::append(&mut r2, route.as_str());
                r2
            } else {
                route
            };
            proof {
                reveal_strlit("//");
            }
            let cleaned = replace_all(led.as_str(), "//", "/");
            let supply = ContainerSupply {
                source_url: cleaned,
                source_http_method: http_method,
                package_name: node.package.clone(),
                class_name: node.node_name.clone(),
                method_name: func.name.clone(),
            };
            let ghost prev = supplies_view(self.resources@);
            let ghost sv = supply@;
            self.resources.push(supply);
            proof {
                assert(supplies_view(self.resources@) =~= prev.push(sv));
                assert(prev.push(sv) =~= prev + seq![sv]);
            }
        } else {
            proof {
                assert(supplies_view(self.resources@) + Seq::<SupplyData>::empty()
                    =~= supplies_view(self.resources@));
            }
        }
    }
}

} // verus!

verus! {

/// The demand one call produces: calls made on a REST client whose method
/// name starts (case folded) with an HTTP verb.
pub open spec fn spec_demand_of_call(call: CallData, node: StructData) -> Option<DemandData> {
    let fn1 = if spec_contains_char(call.function_name, '.') {
        spec_after_last(call.function_name, '.')
    } else {
        call.function_name
    };
    if call.node_name == "RestTemplate"@ {
        let low = spec_lower(fn1);
        let method = if spec_starts_with(low, "get"@) {
            "Get"@
        } else if spec_starts_with(low, "post"@) {
            "Post"@
        } else if spec_starts_with(low, "delete"@) {
            "Delete"@
        } else if spec_starts_with(low, "put"@) {
            "Put"@
        } else {
            Seq::empty()
        };
        let url = if call.parameters.len() > 0 && call.parameters[0].type_value.len() > 0 {
            spec_trim_matches(call.parameters[0].type_value, '"')
        } else {
            Seq::empty()
        };
        if method.len() > 0 {
            Some(
                DemandData {
                    source_caller: node.node_name,
                    call_routes: Seq::empty(),
                    base: Seq::empty(),
                    target_url: url,
                    target_http_method: method,
                    call_data: Seq::empty(),
                },
            )
        } else {
            None
        }
    } else {
        None
    }
}

/// The demands of the calls from `i` on.
pub open spec fn spec_demands_of_calls(calls: Seq<CallData>, node: StructData, i: int) -> Seq<
    DemandData,
>
    decreases calls.len() - i,
{
    if i < 0 || i >= calls.len() {
        Seq::empty()
    } else {
        (match spec_demand_of_call(calls[i], node) {
            Some(d) => seq![d],
            None => Seq::empty(),
        }) + spec_demands_of_calls(calls, node, i + 1)
    }
}

impl JavaApiAnalyser {
    /// Derives the outgoing REST calls of one function, appending them to
    /// the gathered demands; the resources are untouched.
    pub fn create_demand(&mut self, func: &CodeFunction, node: &CodeDataStruct)
        ensures
            demands_view(final(self).demands@) == demands_view(old(self).demands@)
                + spec_demands_of_calls(func@.function_calls, node@, 0),
            final(self).resources@ == old(self).resources@,
    {
        let ghost calls = func@.function_calls;
        let ghost nd = node@;
        let ghost d0 = demands_view(self.demands@);
        let mut i: usize = 0;
        proof {
            assert(d0 + spec_demands_of_calls(calls, nd, 0) =~= demands_view(self.demands@)
                + spec_demands_of_calls(calls, nd, 0));
        }
        while i < func.function_calls.len()
            invariant
                calls == func@.function_calls,
                nd == node@,
                calls.len() == func.function_calls@.len(),
                forall|j: int|
                    0 <= j < calls.len() ==> calls[j] == (
                    #[trigger] func.function_calls@[j])@,
                self.resources@ == old(self).resources@,
                i <= calls.len(),
                d0 + spec_demands_of_calls(calls, nd, 0) == demands_view(self.demands@)
                    + spec_demands_of_calls(calls, nd, i as int),
            decreases calls.len() - i,
        {
            let call = &func.function_calls[i];
            proof {
                assert(calls[i as int] == func.function_calls@[i as int]@);
            }
            let function_name: String = if contains_char(call.function_name.as_str(), '.') {
                after_last(call.function_name.as_str(), '.')
            } else {
                call.function_name.clone()
            };
            if string_eq_str(&call.node_name, "RestTemplate") {
                let low = to_ascii_lower(function_name.as_str());
                let mut method: String = String::new();
                if starts_with_str(low.as_str(), "get") {
                    method = "Get".to_owned();
                } else if starts_with_str(low.as_str(), "post") {
                    method = "Post".to_owned();
                } else if starts_with_str(low.as_str(), "delete") {
                    method = "Delete".to_owned();
                } else if starts_with_str(low.as_str(), "put") {
                    method = "Put".to_owned();
                }
                let mut url: String = String::new();
                if call.parameters.len() > 0 {
                    if call.parameters[0].type_value.as_str().unicode_len() > 0 {
                        url = trim_matches(call.parameters[0].type_value.as_str(), '"');
                        proof {
                            assert(calls[i as int].parameters[0] == crate::chapi::prop_view(
                                call.parameters@[0],
                            ));
                        }
                    }
                }
                if method.as_str().unicode_len() > 0 {
                    let demand = ContainerDemand {
                        source_caller: node.node_name.clone(),
                        call_routes: Vec::new(),
                        base: String::new(),
                        target_url: url,
                        target_http_method: method,
                        call_data: String::new(),
                    };
                    let ghost dv = demand@;
                    let ghost prev = demands_view(self.demands@);
                    self.demands.push(demand);
                    proof {
                        assert(demands_view(self.demands@) =~= prev.push(dv));
                        assert(strs_view(Seq::<String>::empty()) =~= Seq::<Seq<char>>::empty());
                        assert(dv == spec_demand_of_call(calls[i as int], nd)->Some_0);
                        assert(prev.push(dv) =~= prev + seq![dv]);
                    }
                }
            }
            proof {
                assert(spec_demands_of_calls(calls, nd, i as int) =~= (match spec_demand_of_call(
                    calls[i as int],
                    nd,
                ) {
                    Some(d) => seq![d],
                    None => Seq::<DemandData>::empty(),
                }) + spec_demands_of_calls(calls, nd, i + 1));
            }
            i = i + 1;
        }
        proof {
            assert(spec_demands_of_calls(calls, nd, calls.len() as int) =~= Seq::<
                DemandData,
            >::empty());
            assert(demands_view(self.demands@) =~= d0 + spec_demands_of_calls(calls, nd, 0));
        }
    }
}

/// The base route a controller class declares on itself, when any.
pub open spec fn spec_base_url(node: StructData) -> Seq<char> {
    let mapping = crate::chapi::spec_filter_annotations(node.annotations, seq!["RequestMapping"@]);
    if mapping.len() > 0 && mapping[0].key_values.len() > 0 {
        spec_trim_matches(mapping[0].key_values[0].value, '"')
    } else {
        Seq::empty()
    }
}

/// Whether the class is routed: annotated as a controller or mapping.
pub open spec fn spec_is_routed(node: StructData) -> bool {
    crate::chapi::spec_filter_annotations(
        node.annotations,
        seq!["RestController"@, "Controller"@, "RequestMapping"@],
    ).len() > 0
}

/// The resources of the functions from `i` on.
pub open spec fn spec_resources_fold(
    funcs: Seq<FunctionData>,
    base: Seq<char>,
    node: StructData,
    i: int,
) -> Seq<SupplyData>
    decreases funcs.len() - i,
{
    if i < 0 || i >= funcs.len() {
        Seq::empty()
    } else {
        (match spec_resource_of(funcs[i], base, node) {
            Some(s) => seq![s],
            None => Seq::empty(),
        }) + spec_resources_fold(funcs, base, node, i + 1)
    }
}

/// The resources one class contributes.
pub open spec fn spec_node_resources(node: StructData) -> Seq<SupplyData> {
    if spec_is_routed(node) {
        spec_resources_fold(node.functions, spec_base_url(node), node, 0)
    } else {
        Seq::empty()
    }
}

/// Whether the class imports the REST client.
pub open spec fn spec_uses_rest_template(node: StructData) -> bool {
    exists|j: int|
        0 <= j < node.imports.len() && crate::strutil::spec_ends_with(
            (#[trigger] node.imports[j]).source,
            ".RestTemplate"@,
        )
}

/// The demands of the functions from `i` on.
pub open spec fn spec_demands_fold(funcs: Seq<FunctionData>, node: StructData, i: int) -> Seq<
    DemandData,
>
    decreases funcs.len() - i,
{
    if i < 0 || i >= funcs.len() {
        Seq::empty()
    } else {
        spec_demands_of_calls(funcs[i].function_calls, node, 0) + spec_demands_fold(
            funcs,
            node,
            i + 1,
        )
    }
}

/// The demands one class contributes.
pub open spec fn spec_node_demands(node: StructData) -> Seq<DemandData> {
    if spec_uses_rest_template(node) {
        spec_demands_fold(node.functions, node, 0)
    } else {
        Seq::empty()
    }
}

impl JavaApiAnalyser {
    /// Analyses one class record: a routed controller contributes one
    /// resource per annotated method, and a class importing the REST client
    /// contributes the demands of its calls.
    pub fn analysis_by_node(&mut self, node: &CodeDataStruct, workspace: String)
        ensures
            supplies_view(final(self).resources@) == supplies_view(old(self).resources@)
                + spec_node_resources(node@),
            demands_view(final(self).demands@) == demands_view(old(self).demands@)
                + spec_node_demands(node@),
    {
        let ghost nd = node@;
        let mut route_keys: Vec<String> = Vec::new();
        route_keys.push("RestController".to_owned());
        route_keys.push("Controller".to_owned());
        route_keys.push("RequestMapping".to_owned());
        proof {
            assert(strs_view(route_keys@) =~= seq![
                "RestController"@,
                "Controller"@,
                "RequestMapping"@,
            ]);
        }
        let route_annotation = node.filter_annotations(&route_keys);
        if route_annotation.len() > 0 {
            let mut mapping_keys: Vec<String> = Vec::new();
            mapping_keys.push("RequestMapping".to_owned());
            proof {
                assert(strs_view(mapping_keys@) =~= seq!["RequestMapping"@]);
            }
            let mapping_annotation = node.filter_annotations(&mapping_keys);
            let mut base_url: String = String::new();
            if mapping_annotation.len() > 0 {
                if mapping_annotation[0].key_values.len() > 0 {
                    base_url = trim_matches(
                        mapping_annotation[0].key_values[0].value.as_str(),
                        '"',
                    );
                    proof {
                        assert(crate::chapi::anns_view(mapping_annotation@)[0]
                            == mapping_annotation@[0]@);
                    }
                }
            }
            proof {
                assert(crate::chapi::anns_view(route_annotation@).len() > 0);
                assert(spec_is_routed(nd));
                assert(base_url@ == spec_base_url(nd)) by {
                    let mapping = crate::chapi::spec_filter_annotations(
                        nd.annotations,
                        seq!["RequestMapping"@],
                    );
                    if mapping.len() > 0 {
                        assert(crate::chapi::anns_view(mapping_annotation@)[0]
                            == mapping_annotation@[0]@);
                    }
                }
            }
            let ghost r0 = supplies_view(self.resources@);
            let ghost base = base_url@;
            let mut i: usize = 0;
            proof {
                assert(r0 + spec_resources_fold(nd.functions, base, nd, 0) =~= supplies_view(
                    self.resources@,
                ) + spec_resources_fold(nd.functions, base, nd, 0));
            }
            while i < node.functions.len()
                invariant
                    nd == node@,
                    base == base_url@,
                    nd.functions.len() == node.functions@.len(),
                    forall|j: int|
                        0 <= j < nd.functions.len() ==> nd.functions[j] == crate::chapi::func_view(
                            #[trigger] node.functions@[j],
                        ),
                    self.demands@ == old(self).demands@,
                    i <= nd.functions.len(),
                    r0 + spec_resources_fold(nd.functions, base, nd, 0) == supplies_view(
                        self.resources@,
                    ) + spec_resources_fold(nd.functions, base, nd, i as int),
                decreases nd.functions.len() - i,
            {
                proof {
                    assert(nd.functions[i as int] == crate::chapi::func_view(
                        node.functions@[i as int],
                    ));
                }
                self.create_resource(&node.functions[i], base_url.as_str(), node);
                proof {
                    assert(spec_resources_fold(nd.functions, base, nd, i as int) =~= (match
                    spec_resource_of(nd.functions[i as int], base, nd) {
                        Some(s) => seq![s],
                        None => Seq::<SupplyData>::empty(),
                    }) + spec_resources_fold(nd.functions, base, nd, i + 1));
                }
                i = i + 1;
            }
            proof {
                assert(spec_resources_fold(nd.functions, base, nd, nd.functions.len() as int)
                    =~= Seq::<SupplyData>::empty());
                assert(supplies_view(self.resources@) =~= r0 + spec_node_resources(nd));
            }
        } else {
            proof {
                assert(crate::chapi::anns_view(route_annotation@).len() == 0);
                assert(!spec_is_routed(nd));
                assert(supplies_view(self.resources@) + Seq::<SupplyData>::empty()
                    =~= supplies_view(self.resources@));
            }
        }
        let ghost resources_after = self.resources@;
        let mut use_rest_template = false;
        let mut k: usize = 0;
        while k < node.imports.len()
            invariant
                nd == node@,
                nd.imports.len() == node.imports@.len(),
                forall|j: int|
                    0 <= j < nd.imports.len() ==> nd.imports[j] == (
                    #[trigger] node.imports@[j])@,
                k <= nd.imports.len(),
                use_rest_template == exists|j: int|
                    0 <= j < k && crate::strutil::spec_ends_with(
                        (#[trigger] nd.imports[j]).source,
                        ".RestTemplate"@,
                    ),
            decreases nd.imports.len() - k,
        {
            proof {
                assert(nd.imports[k as int] == node.imports@[k as int]@);
            }
            if ends_with_str(node.imports[k].source.as_str(), ".RestTemplate") {
                use_rest_template = true;
            }
            k = k + 1;
        }
        if use_rest_template {
            proof {
                assert(spec_uses_rest_template(nd));
            }
            let ghost d0 = demands_view(self.demands@);
            let mut i: usize = 0;
            proof {
                assert(d0 + spec_demands_fold(nd.functions, nd, 0) =~= demands_view(self.demands@)
                    + spec_demands_fold(nd.functions, nd, 0));
            }
            while i < node.functions.len()
                invariant
                    nd == node@,
                    nd.functions.len() == node.functions@.len(),
                    forall|j: int|
                        0 <= j < nd.functions.len() ==> nd.functions[j] == crate::chapi::func_view(
                            #[trigger] node.functions@[j],
                        ),
                    self.resources@ == resources_after,
                    i <= nd.functions.len(),
                    d0 + spec_demands_fold(nd.functions, nd, 0) == demands_view(self.demands@)
                        + spec_demands_fold(nd.functions, nd, i as int),
                decreases nd.functions.len() - i,
            {
                proof {
                    assert(nd.functions[i as int] == crate::chapi::func_view(
                        node.functions@[i as int],
                    ));
                }
                self.create_demand(&node.functions[i], node);
                proof {
                    assert(spec_demands_fold(nd.functions, nd, i as int) =~= spec_demands_of_calls(
                        nd.functions[i as int].function_calls,
                        nd,
                        0,
                    ) + spec_demands_fold(nd.functions, nd, i + 1));
                }
                i = i + 1;
            }
            proof {
                assert(spec_demands_fold(nd.functions, nd, nd.functions.len() as int) =~= Seq::<
                    DemandData,
                >::empty());
                assert(demands_view(self.demands@) =~= d0 + spec_node_demands(nd));
            }
        } else {
            proof {
                assert(!spec_uses_rest_template(nd));
                assert(demands_view(self.demands@) + Seq::<DemandData>::empty() =~= demands_view(
                    self.demands@,
                ));
            }
        }
    }

    /// One container service holding everything gathered.
    pub fn to_container_services(&self) -> (r: Vec<ContainerService>)
        ensures
            r@.len() == 1,
            r@[0].name@ == Seq::<char>::empty(),
            supplies_view(r@[0].resources@) == supplies_view(self.resources@),
            demands_view(r@[0].demands@) == demands_view(self.demands@),
    {
        let mut resources: Vec<ContainerSupply> = Vec::new();
        let mut i: usize = 0;
        while i < self.resources.len()
            invariant
                i <= self.resources@.len(),
                resources@.len() == i,
                forall|j: int| 0 <= j < i ==> (#[trigger] resources@[j])@ == self.resources@[j]@,
            decreases self.resources@.len() - i,
        {
            resources.push(
                ContainerSupply {
                    source_url: self.resources[i].source_url.clone(),
                    source_http_method: self.resources[i].source_http_method.clone(),
                    package_name: self.resources[i].package_name.clone(),
                    class_name: self.resources[i].class_name.clone(),
                    method_name: self.resources[i].method_name.clone(),
                },
            );
            i = i + 1;
        }
        let mut demands: Vec<ContainerDemand> = Vec::new();
        let mut k: usize = 0;
        while k < self.demands.len()
            invariant
                k <= self.demands@.len(),
                demands@.len() == k,
                forall|j: int| 0 <= j < k ==> (#[trigger] demands@[j])@ == self.demands@[j]@,
            decreases self.demands@.len() - k,
        {
            let mut routes: Vec<String> = Vec::new();
            let mut t: usize = 0;
            while t < self.demands[k].call_routes.len()
                invariant
                    k < self.demands@.len(),
                    t <= self.demands@[k as int].call_routes@.len(),
                    routes@.len() == t,
                    forall|j: int|
                        0 <= j < t ==> (#[trigger] routes@[j])@ == self.demands@[
                            k as int
                        ].call_routes@[j]@,
                decreases self.demands@[k as int].call_routes@.len() - t,
            {
                routes.push(self.demands[k].call_routes[t].clone());
                t = t + 1;
            }
            proof {
                assert(strs_view(routes@) =~= strs_view(self.demands@[k as int].call_routes@));
            }
            demands.push(
                ContainerDemand {
                    source_caller: self.demands[k].source_caller.clone(),
                    call_routes: routes,
                    base: self.demands[k].base.clone(),
                    target_url: self.demands[k].target_url.clone(),
                    target_http_method: self.demands[k].target_http_method.clone(),
                    call_data: self.demands[k].call_data.clone(),
                },
            );
            k = k + 1;
        }
        let mut r: Vec<ContainerService> = Vec::new();
        r.push(ContainerService { name: String::new(), demands, resources });
        proof {
            assert(supplies_view(r@[0].resources@) =~= supplies_view(self.resources@));
            assert(demands_view(r@[0].demands@) =~= demands_view(self.demands@));
        }
        r
    }
}

} // verus!
