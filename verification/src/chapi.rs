//! The chapi code model: the structured class and function records that
//! scanners report, and their decoding from the generic value tree.
//!
//! Field names arrive in Pascal case; absent fields fall back to their
//! defaults; a field of the wrong shape fails the whole record.  Decoding is
//! fuel-bounded: nesting deeper than [`DECODE_DEPTH`] is rejected, as a
//! streaming decoder's recursion limit would.

use vstd::prelude::*;
use crate::json::{
    obj_get, obj_get_str, obj_view, spec_as_str, spec_obj_get, JsonData, JsonValue,
};
use crate::payload::strs_view;
use crate::strutil::str_eq;

verus! {

/// How deep a record tree may nest.
pub const DECODE_DEPTH: u32 = 128;

#[derive(Clone, Copy, Debug, PartialEq, Eq, Structural)]
pub enum DataStructType {
    Empty,
    Default,
    Class,
    Variable,
    Interface,
    Struct,
    Object,
    InnerStructures,
    CreatorClass,
    AbstractClass,
    Trait,
    Enum,
}

impl DataStructType {
    /// The fallback kind.
    pub fn default() -> (r: DataStructType)
        ensures
            r == DataStructType::Default,
    {
        DataStructType::Default
    }
}

/// The kind a stored variant name maps to, if any.
pub open spec fn spec_ds_type_of(s: Seq<char>) -> Option<DataStructType> {
    if s == "Empty"@ {
        Some(DataStructType::Empty)
    } else if s == "Default"@ {
        Some(DataStructType::Default)
    } else if s == "Class"@ {
        Some(DataStructType::Class)
    } else if s == "Variable"@ {
        Some(DataStructType::Variable)
    } else if s == "Interface"@ {
        Some(DataStructType::Interface)
    } else if s == "Struct"@ {
        Some(DataStructType::Struct)
    } else if s == "Object"@ {
        Some(DataStructType::Object)
    } else if s == "InnerStructures"@ {
        Some(DataStructType::InnerStructures)
    } else if s == "CreatorClass"@ {
        Some(DataStructType::CreatorClass)
    } else if s == "AbstractClass"@ {
        Some(DataStructType::AbstractClass)
    } else if s == "Trait"@ {
        Some(DataStructType::Trait)
    } else if s == "Enum"@ {
        Some(DataStructType::Enum)
    } else {
        None
    }
}

fn ds_type_of(s: &str) -> (r: Option<DataStructType>)
    ensures
        r == spec_ds_type_of(s@),
{
    if str_eq(s, "Empty") {
        Some(DataStructType::Empty)
    } else if str_eq(s, "Default") {
        Some(DataStructType::Default)
    } else if str_eq(s, "Class") {
        Some(DataStructType::Class)
    } else if str_eq(s, "Variable") {
        Some(DataStructType::Variable)
    } else if str_eq(s, "Interface") {
        Some(DataStructType::Interface)
    } else if str_eq(s, "Struct") {
        Some(DataStructType::Struct)
    } else if str_eq(s, "Object") {
        Some(DataStructType::Object)
    } else if str_eq(s, "InnerStructures") {
        Some(DataStructType::InnerStructures)
    } else if str_eq(s, "CreatorClass") {
        Some(DataStructType::CreatorClass)
    } else if str_eq(s, "AbstractClass") {
        Some(DataStructType::AbstractClass)
    } else if str_eq(s, "Trait") {
        Some(DataStructType::Trait)
    } else if str_eq(s, "Enum") {
        Some(DataStructType::Enum)
    } else {
        None
    }
}

#[derive(Clone, Copy, Debug, PartialEq, Eq, Structural)]
pub enum CallType {
    Field,
    Lambda,
    Arrow,
    Creator,
    Function,
    Super,
    SamePackage,
    SelfCall,
    Chain,
    Static,
}

impl CallType {
    /// The fallback call kind.
    pub fn function() -> (r: CallType)
        ensures
            r == CallType::Function,
    {
        CallType::Function
    }
}

/// The call kind a stored name maps to, if any.
pub open spec fn spec_call_type_of(s: Seq<char>) -> Option<CallType> {
    if s == "field"@ {
        Some(CallType::Field)
    } else if s == "lambda"@ {
        Some(CallType::Lambda)
    } else if s == "arrow"@ {
        Some(CallType::Arrow)
    } else if s == "creator"@ {
        Some(CallType::Creator)
    } else if s == "function"@ {
        Some(CallType::Function)
    } else if s == "super"@ {
        Some(CallType::Super)
    } else if s == "same package"@ {
        Some(CallType::SamePackage)
    } else if s == "self"@ {
        Some(CallType::SelfCall)
    } else if s == "chain"@ {
        Some(CallType::Chain)
    } else if s == "static"@ {
        Some(CallType::Static)
    } else {
        None
    }
}

fn call_type_of(s: &str) -> (r: Option<CallType>)
    ensures
        r == spec_call_type_of(s@),
{
    if str_eq(s, "field") {
        Some(CallType::Field)
    } else if str_eq(s, "lambda") {
        Some(CallType::Lambda)
    } else if str_eq(s, "arrow") {
        Some(CallType::Arrow)
    } else if str_eq(s, "creator") {
        Some(CallType::Creator)
    } else if str_eq(s, "function") {
        Some(CallType::Function)
    } else if str_eq(s, "super") {
        Some(CallType::Super)
    } else if str_eq(s, "same package") {
        Some(CallType::SamePackage)
    } else if str_eq(s, "self") {
        Some(CallType::SelfCall)
    } else if str_eq(s, "chain") {
        Some(CallType::Chain)
    } else if str_eq(s, "static") {
        Some(CallType::Static)
    } else {
        None
    }
}

#[derive(Clone, Copy, Debug, PartialEq, Eq, Structural)]
pub enum FunctionType {
    Function,
    Block,
}

impl FunctionType {
    /// The fallback function kind.
    pub fn function() -> (r: FunctionType)
        ensures
            r == FunctionType::Function,
    {
        FunctionType::Function
    }
}

/// The function kind a stored variant name maps to, if any.
pub open spec fn spec_function_type_of(s: Seq<char>) -> Option<FunctionType> {
    if s == "Function"@ {
        Some(FunctionType::Function)
    } else if s == "Block"@ {
        Some(FunctionType::Block)
    } else {
        None
    }
}

fn function_type_of(s: &str) -> (r: Option<FunctionType>)
    ensures
        r == spec_function_type_of(s@),
{
    if str_eq(s, "Function") {
        Some(FunctionType::Function)
    } else if str_eq(s, "Block") {
        Some(FunctionType::Block)
    } else {
        None
    }
}

/// A position in a source file.
#[derive(Clone, Copy, Debug, PartialEq, Eq, Structural)]
pub struct CodePosition {
    pub start_line: i32,
    pub start_line_position: i32,
    pub stop_line: i32,
    pub stop_line_position: i32,
}

/// One key-value pair of an annotation.
#[derive(Clone, Debug)]
pub struct AnnotationKeyValue {
    pub key: String,
    pub value: String,
}

pub ghost struct KvData {
    pub key: Seq<char>,
    pub value: Seq<char>,
}

impl View for AnnotationKeyValue {
    type V = KvData;

    open spec fn view(&self) -> KvData {
        KvData { key: self.key@, value: self.value@ }
    }
}

/// An annotation on a class, field or function.
#[derive(Clone, Debug)]
pub struct CodeAnnotation {
    pub name: String,
    pub key_values: Vec<AnnotationKeyValue>,
}

pub ghost struct AnnotationData {
    pub name: Seq<char>,
    pub key_values: Seq<KvData>,
}

impl View for CodeAnnotation {
    type V = AnnotationData;

    open spec fn view(&self) -> AnnotationData {
        AnnotationData {
            name: self.name@,
            key_values: self.key_values@.map_values(|k: AnnotationKeyValue| k@),
        }
    }
}

/// A property: a parameter, return value or local variable.
#[derive(Debug)]
pub struct CodeProperty {
    pub modifiers: Vec<String>,
    pub default_value: Option<String>,
    pub type_value: String,
    pub type_type: String,
    pub annotations: Vec<CodeAnnotation>,
    pub object_value: Vec<CodeProperty>,
    pub return_types: Vec<CodeProperty>,
    pub parameters: Vec<CodeProperty>,
}

pub ghost struct PropertyData {
    pub modifiers: Seq<Seq<char>>,
    pub default_value: Option<Seq<char>>,
    pub type_value: Seq<char>,
    pub type_type: Seq<char>,
    pub annotations: Seq<AnnotationData>,
    pub object_value: Seq<PropertyData>,
    pub return_types: Seq<PropertyData>,
    pub parameters: Seq<PropertyData>,
}

/// The content of a property.
pub open spec fn prop_view(p: CodeProperty) -> PropertyData
    decreases p,
{
    PropertyData {
        modifiers: strs_view(p.modifiers@),
        default_value: match p.default_value {
            Some(s) => Some(s@),
            None => None,
        },
        type_value: p.type_value@,
        type_type: p.type_type@,
        annotations: p.annotations@.map_values(|a: CodeAnnotation| a@),
        object_value: Seq::new(
            p.object_value@.len(),
            |i: int|
                if 0 <= i < p.object_value@.len() {
                    prop_view(p.object_value@[i])
                } else {
                    arbitrary()
                },
        ),
        return_types: Seq::new(
            p.return_types@.len(),
            |i: int|
                if 0 <= i < p.return_types@.len() {
                    prop_view(p.return_types@[i])
                } else {
                    arbitrary()
                },
        ),
        parameters: Seq::new(
            p.parameters@.len(),
            |i: int|
                if 0 <= i < p.parameters@.len() {
                    prop_view(p.parameters@[i])
                } else {
                    arbitrary()
                },
        ),
    }
}

impl View for CodeProperty {
    type V = PropertyData;

    open spec fn view(&self) -> PropertyData {
        prop_view(*self)
    }
}

/// One call made from a function or field initializer.
#[derive(Debug)]
pub struct CodeCall {
    pub package: Option<String>,
    pub call_type: CallType,
    pub node_name: String,
    pub function_name: String,
    pub parameters: Vec<CodeProperty>,
    pub position: CodePosition,
    pub origin_node_name: String,
}

pub ghost struct CallData {
    pub package: Option<Seq<char>>,
    pub call_type: CallType,
    pub node_name: Seq<char>,
    pub function_name: Seq<char>,
    pub parameters: Seq<PropertyData>,
    pub position: CodePosition,
    pub origin_node_name: Seq<char>,
}

impl View for CodeCall {
    type V = CallData;

    open spec fn view(&self) -> CallData {
        CallData {
            package: match self.package {
                Some(s) => Some(s@),
                None => None,
            },
            call_type: self.call_type,
            node_name: self.node_name@,
            function_name: self.function_name@,
            parameters: self.parameters@.map_values(|p: CodeProperty| p@),
            position: self.position,
            origin_node_name: self.origin_node_name@,
        }
    }
}

/// A field of a class.
#[derive(Debug)]
pub struct CodeField {
    pub type_type: Option<String>,
    pub type_value: Option<String>,
    pub type_key: Option<String>,
    pub annotations: Vec<CodeAnnotation>,
    pub modifiers: Vec<String>,
    pub calls: Vec<CodeCall>,
}

pub ghost struct FieldData {
    pub type_type: Option<Seq<char>>,
    pub type_value: Option<Seq<char>>,
    pub type_key: Option<Seq<char>>,
    pub annotations: Seq<AnnotationData>,
    pub modifiers: Seq<Seq<char>>,
    pub calls: Seq<CallData>,
}

impl View for CodeField {
    type V = FieldData;

    open spec fn view(&self) -> FieldData {
        FieldData {
            type_type: match self.type_type {
                Some(s) => Some(s@),
                None => None,
            },
            type_value: match self.type_value {
                Some(s) => Some(s@),
                None => None,
            },
            type_key: match self.type_key {
                Some(s) => Some(s@),
                None => None,
            },
            annotations: self.annotations@.map_values(|a: CodeAnnotation| a@),
            modifiers: strs_view(self.modifiers@),
            calls: self.calls@.map_values(|c: CodeCall| c@),
        }
    }
}

/// An import of a source file.
#[derive(Clone, Debug)]
pub struct CodeImport {
    pub source: String,
    pub as_name: String,
    pub usage_name: Vec<String>,
    pub scope: Option<String>,
}

pub ghost struct ImportData {
    pub source: Seq<char>,
    pub as_name: Seq<char>,
    pub usage_name: Seq<Seq<char>>,
    pub scope: Option<Seq<char>>,
}

impl View for CodeImport {
    type V = ImportData;

    open spec fn view(&self) -> ImportData {
        ImportData {
            source: self.source@,
            as_name: self.as_name@,
            usage_name: strs_view(self.usage_name@),
            scope: match self.scope {
                Some(s) => Some(s@),
                None => None,
            },
        }
    }
}

/// An export of a source file.
#[derive(Clone, Debug)]
pub struct CodeExport {
    pub name: String,
    pub source_file: String,
    pub data_type: Option<DataStructType>,
}

pub ghost struct ExportData {
    pub name: Seq<char>,
    pub source_file: Seq<char>,
    pub data_type: Option<DataStructType>,
}

impl View for CodeExport {
    type V = ExportData;

    open spec fn view(&self) -> ExportData {
        ExportData { name: self.name@, source_file: self.source_file@, data_type: self.data_type }
    }
}

} // verus!

verus! {

/// A function or method.
#[derive(Debug)]
pub struct CodeFunction {
    pub name: String,
    pub file_path: String,
    pub package: String,
    pub return_type: String,
    pub multiple_returns: Vec<CodeProperty>,
    pub parameters: Vec<CodeProperty>,
    pub function_calls: Vec<CodeCall>,
    pub annotations: Vec<CodeAnnotation>,
    pub is_override: bool,
    pub modifiers: Vec<String>,
    pub inner_structures: Vec<CodeDataStruct>,
    pub inner_functions: Vec<CodeFunction>,
    pub position: CodePosition,
    pub extension: Option<JsonValue>,
    pub local_variables: Vec<CodeProperty>,
    pub is_constructor: Option<bool>,
    pub is_return_html: Option<bool>,
    pub body_hash: Option<i32>,
    pub function_type: FunctionType,
}

pub ghost struct FunctionData {
    pub name: Seq<char>,
    pub file_path: Seq<char>,
    pub package: Seq<char>,
    pub return_type: Seq<char>,
    pub multiple_returns: Seq<PropertyData>,
    pub parameters: Seq<PropertyData>,
    pub function_calls: Seq<CallData>,
    pub annotations: Seq<AnnotationData>,
    pub is_override: bool,
    pub modifiers: Seq<Seq<char>>,
    pub inner_structures: Seq<StructData>,
    pub inner_functions: Seq<FunctionData>,
    pub position: CodePosition,
    pub extension: Option<JsonData>,
    pub local_variables: Seq<PropertyData>,
    pub is_constructor: Option<bool>,
    pub is_return_html: Option<bool>,
    pub body_hash: Option<i32>,
    pub function_type: FunctionType,
}

/// A class or data structure.
#[derive(Debug)]
pub struct CodeDataStruct {
    pub node_name: String,
    pub module: String,
    pub data_type: DataStructType,
    pub package: String,
    pub file_path: String,
    pub fields: Vec<CodeField>,
    pub multiple_extend: Vec<String>,
    pub implements: Vec<String>,
    pub extend: String,
    pub functions: Vec<CodeFunction>,
    pub inner_structures: Vec<CodeDataStruct>,
    pub annotations: Vec<CodeAnnotation>,
    pub function_calls: Vec<CodeCall>,
    pub parameters: Vec<CodeProperty>,
    pub imports: Vec<CodeImport>,
    pub exports: Vec<CodeExport>,
    pub extension: Option<JsonValue>,
    pub position: CodePosition,
}

pub ghost struct StructData {
    pub node_name: Seq<char>,
    pub module: Seq<char>,
    pub data_type: DataStructType,
    pub package: Seq<char>,
    pub file_path: Seq<char>,
    pub fields: Seq<FieldData>,
    pub multiple_extend: Seq<Seq<char>>,
    pub implements: Seq<Seq<char>>,
    pub extend: Seq<char>,
    pub functions: Seq<FunctionData>,
    pub inner_structures: Seq<StructData>,
    pub annotations: Seq<AnnotationData>,
    pub function_calls: Seq<CallData>,
    pub parameters: Seq<PropertyData>,
    pub imports: Seq<ImportData>,
    pub exports: Seq<ExportData>,
    pub extension: Option<JsonData>,
    pub position: CodePosition,
}

/// The content of a function.
pub open spec fn func_view(f: CodeFunction) -> FunctionData
    decreases f,
{
    FunctionData {
        name: f.name@,
        file_path: f.file_path@,
        package: f.package@,
        return_type: f.return_type@,
        multiple_returns: f.multiple_returns@.map_values(|p: CodeProperty| p@),
        parameters: f.parameters@.map_values(|p: CodeProperty| p@),
        function_calls: f.function_calls@.map_values(|c: CodeCall| c@),
        annotations: f.annotations@.map_values(|a: CodeAnnotation| a@),
        is_override: f.is_override,
        modifiers: strs_view(f.modifiers@),
        inner_structures: Seq::new(
            f.inner_structures@.len(),
            |i: int|
                if 0 <= i < f.inner_structures@.len() {
                    cds_view(f.inner_structures@[i])
                } else {
                    arbitrary()
                },
        ),
        inner_functions: Seq::new(
            f.inner_functions@.len(),
            |i: int|
                if 0 <= i < f.inner_functions@.len() {
                    func_view(f.inner_functions@[i])
                } else {
                    arbitrary()
                },
        ),
        position: f.position,
        extension: match f.extension {
            Some(v) => Some(crate::json::json_view(v)),
            None => None,
        },
        local_variables: f.local_variables@.map_values(|p: CodeProperty| p@),
        is_constructor: f.is_constructor,
        is_return_html: f.is_return_html,
        body_hash: f.body_hash,
        function_type: f.function_type,
    }
}

/// The content of a data structure.
pub open spec fn cds_view(d: CodeDataStruct) -> StructData
    decreases d,
{
    StructData {
        node_name: d.node_name@,
        module: d.module@,
        data_type: d.data_type,
        package: d.package@,
        file_path: d.file_path@,
        fields: d.fields@.map_values(|f: CodeField| f@),
        multiple_extend: strs_view(d.multiple_extend@),
        implements: strs_view(d.implements@),
        extend: d.extend@,
        functions: Seq::new(
            d.functions@.len(),
            |i: int|
                if 0 <= i < d.functions@.len() {
                    func_view(d.functions@[i])
                } else {
                    arbitrary()
                },
        ),
        inner_structures: Seq::new(
            d.inner_structures@.len(),
            |i: int|
                if 0 <= i < d.inner_structures@.len() {
                    cds_view(d.inner_structures@[i])
                } else {
                    arbitrary()
                },
        ),
        annotations: d.annotations@.map_values(|a: CodeAnnotation| a@),
        function_calls: d.function_calls@.map_values(|c: CodeCall| c@),
        parameters: d.parameters@.map_values(|p: CodeProperty| p@),
        imports: d.imports@.map_values(|im: CodeImport| im@),
        exports: d.exports@.map_values(|e: CodeExport| e@),
        extension: match d.extension {
            Some(v) => Some(crate::json::json_view(v)),
            None => None,
        },
        position: d.position,
    }
}

impl View for CodeFunction {
    type V = FunctionData;

    open spec fn view(&self) -> FunctionData {
        func_view(*self)
    }
}

impl View for CodeDataStruct {
    type V = StructData;

    open spec fn view(&self) -> StructData {
        cds_view(*self)
    }
}

} // verus!

verus! {

/// A required string field.
pub open spec fn spec_req_str(f: Seq<(Seq<char>, JsonData)>, k: Seq<char>) -> Option<Seq<char>> {
    spec_as_str(spec_obj_get(f, k))
}

/// A string field with the empty default.
pub open spec fn spec_def_str(f: Seq<(Seq<char>, JsonData)>, k: Seq<char>) -> Option<Seq<char>> {
    match spec_obj_get(f, k) {
        None => Some(""@),
        Some(JsonData::Str(s)) => Some(s),
        Some(_) => None,
    }
}

/// An optional string field.
pub open spec fn spec_opt_str(f: Seq<(Seq<char>, JsonData)>, k: Seq<char>) -> Option<
    Option<Seq<char>>,
> {
    match spec_obj_get(f, k) {
        None => Some(None),
        Some(JsonData::Null) => Some(None),
        Some(JsonData::Str(s)) => Some(Some(s)),
        Some(_) => None,
    }
}

/// A boolean field defaulting to false.
pub open spec fn spec_def_bool(f: Seq<(Seq<char>, JsonData)>, k: Seq<char>) -> Option<bool> {
    match spec_obj_get(f, k) {
        None => Some(false),
        Some(JsonData::Bool(b)) => Some(b),
        Some(_) => None,
    }
}

/// An optional boolean field.
pub open spec fn spec_opt_bool(f: Seq<(Seq<char>, JsonData)>, k: Seq<char>) -> Option<
    Option<bool>,
> {
    match spec_obj_get(f, k) {
        None => Some(None),
        Some(JsonData::Null) => Some(None),
        Some(JsonData::Bool(b)) => Some(Some(b)),
        Some(_) => None,
    }
}

/// A required 32-bit number field.
pub open spec fn spec_req_i32(f: Seq<(Seq<char>, JsonData)>, k: Seq<char>) -> Option<i32> {
    match spec_obj_get(f, k) {
        Some(JsonData::Num(n)) => if i32::MIN as i64 <= n <= i32::MAX as i64 {
            Some(n as i32)
        } else {
            None
        },
        _ => None,
    }
}

/// A 32-bit number field defaulting to zero.
pub open spec fn spec_def_i32(f: Seq<(Seq<char>, JsonData)>, k: Seq<char>) -> Option<i32> {
    match spec_obj_get(f, k) {
        None => Some(0),
        Some(JsonData::Num(n)) => if i32::MIN as i64 <= n <= i32::MAX as i64 {
            Some(n as i32)
        } else {
            None
        },
        Some(_) => None,
    }
}

/// An optional 32-bit number field.
pub open spec fn spec_opt_i32(f: Seq<(Seq<char>, JsonData)>, k: Seq<char>) -> Option<
    Option<i32>,
> {
    match spec_obj_get(f, k) {
        None => Some(None),
        Some(JsonData::Null) => Some(None),
        Some(JsonData::Num(n)) => if i32::MIN as i64 <= n <= i32::MAX as i64 {
            Some(Some(n as i32))
        } else {
            None
        },
        Some(_) => None,
    }
}

/// A list-of-strings field defaulting to the empty list.
pub open spec fn spec_def_strlist(f: Seq<(Seq<char>, JsonData)>, k: Seq<char>) -> Option<
    Seq<Seq<char>>,
> {
    match spec_obj_get(f, k) {
        None => Some(Seq::empty()),
        Some(JsonData::Arr(items)) => crate::payload::spec_str_items(items),
        Some(_) => None,
    }
}

/// A required list-of-strings field.
pub open spec fn spec_req_strlist(f: Seq<(Seq<char>, JsonData)>, k: Seq<char>) -> Option<
    Seq<Seq<char>>,
> {
    match spec_obj_get(f, k) {
        Some(JsonData::Arr(items)) => crate::payload::spec_str_items(items),
        _ => None,
    }
}

fn req_str(fields: &Vec<(String, JsonValue)>, k: &str) -> (r: Option<String>)
    ensures
        r matches Some(s) ==> spec_req_str(obj_view(fields@), k@) == Some(s@),
        r is None <==> spec_req_str(obj_view(fields@), k@) is None,
{
    obj_get_str(fields, k)
}

fn def_str(fields: &Vec<(String, JsonValue)>, k: &str) -> (r: Option<String>)
    ensures
        r matches Some(s) ==> spec_def_str(obj_view(fields@), k@) == Some(s@),
        r is None <==> spec_def_str(obj_view(fields@), k@) is None,
{
    proof {
        reveal_strlit("");
        assert(""@ =~= Seq::<char>::empty());
    }
    match obj_get(fields, k) {
        None => Some(String::new()),
        Some(JsonValue::Str(s)) => Some(s.clone()),
        Some(_) => None,
    }
}

fn opt_str(fields: &Vec<(String, JsonValue)>, k: &str) -> (r: Option<Option<String>>)
    ensures
        r matches Some(o) ==> (spec_opt_str(obj_view(fields@), k@) matches Some(so) && (o
            matches Some(s) ==> so == Some(s@)) && (o is None ==> so is None)),
        r is None <==> spec_opt_str(obj_view(fields@), k@) is None,
{
    match obj_get(fields, k) {
        None => Some(None),
        Some(JsonValue::Null) => Some(None),
        Some(JsonValue::Str(s)) => Some(Some(s.clone())),
        Some(_) => None,
    }
}

fn def_bool(fields: &Vec<(String, JsonValue)>, k: &str) -> (r: Option<bool>)
    ensures
        r == spec_def_bool(obj_view(fields@), k@),
{
    match obj_get(fields, k) {
        None => Some(false),
        Some(JsonValue::Bool(b)) => Some(*b),
        Some(_) => None,
    }
}

fn opt_bool(fields: &Vec<(String, JsonValue)>, k: &str) -> (r: Option<Option<bool>>)
    ensures
        r == spec_opt_bool(obj_view(fields@), k@),
{
    match obj_get(fields, k) {
        None => Some(None),
        Some(JsonValue::Null) => Some(None),
        Some(JsonValue::Bool(b)) => Some(Some(*b)),
        Some(_) => None,
    }
}

fn req_i32(fields: &Vec<(String, JsonValue)>, k: &str) -> (r: Option<i32>)
    ensures
        r == spec_req_i32(obj_view(fields@), k@),
{
    match obj_get(fields, k) {
        Some(JsonValue::Num(n)) => {
            if -2147483648 <= *n && *n <= 2147483647 {
                Some(*n as i32)
            } else {
                None
            }
        },
        _ => None,
    }
}

fn def_i32(fields: &Vec<(String, JsonValue)>, k: &str) -> (r: Option<i32>)
    ensures
        r == spec_def_i32(obj_view(fields@), k@),
{
    match obj_get(fields, k) {
        None => Some(0),
        Some(JsonValue::Num(n)) => {
            if -2147483648 <= *n && *n <= 2147483647 {
                Some(*n as i32)
            } else {
                None
            }
        },
        Some(_) => None,
    }
}

fn opt_i32(fields: &Vec<(String, JsonValue)>, k: &str) -> (r: Option<Option<i32>>)
    ensures
        r == spec_opt_i32(obj_view(fields@), k@),
{
    match obj_get(fields, k) {
        None => Some(None),
        Some(JsonValue::Null) => Some(None),
        Some(JsonValue::Num(n)) => {
            if -2147483648 <= *n && *n <= 2147483647 {
                Some(Some(*n as i32))
            } else {
                None
            }
        },
        Some(_) => None,
    }
}

fn def_strlist(fields: &Vec<(String, JsonValue)>, k: &str) -> (r: Option<Vec<String>>)
    ensures
        r matches Some(v) ==> spec_def_strlist(obj_view(fields@), k@) == Some(strs_view(v@)),
        r is None <==> spec_def_strlist(obj_view(fields@), k@) is None,
{
    match obj_get(fields, k) {
        None => {
            let v: Vec<String> = Vec::new();
            assert(strs_view(v@) =~= Seq::<Seq<char>>::empty());
            Some(v)
        },
        Some(JsonValue::Arr(items)) => crate::payload::str_items(items),
        Some(_) => None,
    }
}

fn req_strlist(fields: &Vec<(String, JsonValue)>, k: &str) -> (r: Option<Vec<String>>)
    ensures
        r matches Some(v) ==> spec_req_strlist(obj_view(fields@), k@) == Some(strs_view(v@)),
        r is None <==> spec_req_strlist(obj_view(fields@), k@) is None,
{
    match obj_get(fields, k) {
        Some(JsonValue::Arr(items)) => crate::payload::str_items(items),
        _ => None,
    }
}

} // verus!

verus! {

/// A required object field holding an array, a missing one, or an error.
fn list_field<'a>(fields: &'a Vec<(String, JsonValue)>, k: &str) -> (r: Result<
    Option<&'a Vec<JsonValue>>,
    (),
>)
    ensures
        r matches Ok(o) ==> ((o matches Some(items) ==> spec_obj_get(obj_view(fields@), k@)
            == Some(JsonData::Arr(crate::json::vals_view(items@)))) && (o is None ==> spec_obj_get(
            obj_view(fields@),
            k@,
        ) is None)),
        r is Err <==> (spec_obj_get(obj_view(fields@), k@) matches Some(d) && !(d is Arr)),
{
    match obj_get(fields, k) {
        None => Ok(None),
        Some(gv) => match gv {
            JsonValue::Arr(items) => {
                proof {
                    crate::json::lemma_view_arr(*gv);
                }
                Ok(Some(items))
            },
            _ => Err(()),
        },
    }
}

/// A position field set.
pub open spec fn spec_position_of(v: JsonData) -> Option<CodePosition> {
    match v {
        JsonData::Obj(f) => {
            let sl = spec_req_i32(f, "StartLine"@);
            let slp = spec_def_i32(f, "StartLinePosition"@);
            let el = spec_req_i32(f, "StopLine"@);
            let elp = spec_def_i32(f, "StopLinePosition"@);
            if sl is Some && slp is Some && el is Some && elp is Some {
                Some(
                    CodePosition {
                        start_line: sl->Some_0,
                        start_line_position: slp->Some_0,
                        stop_line: el->Some_0,
                        stop_line_position: elp->Some_0,
                    },
                )
            } else {
                None
            }
        },
        _ => None,
    }
}

fn position_of(v: &JsonValue) -> (r: Option<CodePosition>)
    ensures
        r matches Some(p) ==> spec_position_of(crate::json::json_view(*v)) == Some(p),
        r is None <==> spec_position_of(crate::json::json_view(*v)) is None,
{
    let fields = match v {
        JsonValue::Obj(fields) => fields,
        _ => {
            return None;
        },
    };
    proof {
        crate::json::lemma_view_obj(*v);
    }
    let start_line = match req_i32(fields, "StartLine") {
        Some(n) => n,
        None => {
            return None;
        },
    };
    let start_line_position = match def_i32(fields, "StartLinePosition") {
        Some(n) => n,
        None => {
            return None;
        },
    };
    let stop_line = match req_i32(fields, "StopLine") {
        Some(n) => n,
        None => {
            return None;
        },
    };
    let stop_line_position = match def_i32(fields, "StopLinePosition") {
        Some(n) => n,
        None => {
            return None;
        },
    };
    Some(CodePosition { start_line, start_line_position, stop_line, stop_line_position })
}

/// A key-value pair record.
pub open spec fn spec_kv_of(v: JsonData, fuel: nat) -> Option<KvData>
    decreases fuel, 2int, 0int,
{
    if fuel == 0 {
        None
    } else {
        match v {
            JsonData::Obj(f) => {
                let key = spec_req_str(f, "Key"@);
                let value = spec_req_str(f, "Value"@);
                if key is Some && value is Some {
                    Some(KvData { key: key->Some_0, value: value->Some_0 })
                } else {
                    None
                }
            },
            _ => None,
        }
    }
}

fn kv_of(v: &JsonValue, fuel: u32) -> (r: Option<AnnotationKeyValue>)
    ensures
        r matches Some(d) ==> spec_kv_of(crate::json::json_view(*v), fuel as nat) == Some(d@),
        r is None <==> spec_kv_of(crate::json::json_view(*v), fuel as nat) is None,
    decreases fuel, 0int, 0int,
{
    if fuel == 0 {
        return None;
    }
    let fields = match v {
        JsonValue::Obj(fields) => fields,
        _ => {
            return None;
        },
    };
    proof {
        crate::json::lemma_view_obj(*v);
    }
    let key = match req_str(fields, "Key") {
        Some(s) => s,
        None => {
            return None;
        },
    };
    let value = match req_str(fields, "Value") {
        Some(s) => s,
        None => {
            return None;
        },
    };
    Some(AnnotationKeyValue { key, value })
}

/// The key-value list field, defaulting to the empty list.
pub open spec fn spec_def_kvs(f: Seq<(Seq<char>, JsonData)>, k: Seq<char>, fuel: nat) -> Option<
    Seq<KvData>,
>
    decreases fuel, 1int, 0int,
{
    match spec_obj_get(f, k) {
        None => Some(Seq::empty()),
        Some(JsonData::Arr(items)) => spec_kv_items(items, fuel),
        Some(_) => None,
    }
}

/// An annotation record.
pub open spec fn spec_ann_of(v: JsonData, fuel: nat) -> Option<AnnotationData>
    decreases fuel, 2int, 0int,
{
    if fuel == 0 {
        None
    } else {
        match v {
            JsonData::Obj(f) => {
                let name = spec_req_str(f, "Name"@);
                let kvs = spec_def_kvs(f, "KeyValues"@, (fuel - 1) as nat);
                if name is Some && kvs is Some {
                    Some(AnnotationData { name: name->Some_0, key_values: kvs->Some_0 })
                } else {
                    None
                }
            },
            _ => None,
        }
    }
}

fn ann_of(v: &JsonValue, fuel: u32) -> (r: Option<CodeAnnotation>)
    ensures
        r matches Some(d) ==> spec_ann_of(crate::json::json_view(*v), fuel as nat) == Some(d@),
        r is None <==> spec_ann_of(crate::json::json_view(*v), fuel as nat) is None,
    decreases fuel, 0int, 0int,
{
    if fuel == 0 {
        return None;
    }
    let fields = match v {
        JsonValue::Obj(fields) => fields,
        _ => {
            return None;
        },
    };
    proof {
        crate::json::lemma_view_obj(*v);
    }
    let name = match req_str(fields, "Name") {
        Some(s) => s,
        None => {
            return None;
        },
    };
    let key_values: Vec<AnnotationKeyValue> = match list_field(fields, "KeyValues") {
        Ok(None) => Vec::new(),
        Ok(Some(items)) => match kv_items(items, fuel - 1) {
            Some(xs) => xs,
            None => {
                return None;
            },
        },
        Err(_) => {
            return None;
        },
    };
    proof {
        assert(kvs_view(Seq::<AnnotationKeyValue>::empty()) =~= Seq::<KvData>::empty());
    }
    Some(CodeAnnotation { name, key_values })
}

} // verus!

verus! {

pub open spec fn kvs_view(v: Seq<AnnotationKeyValue>) -> Seq<KvData> {
    v.map_values(|x: AnnotationKeyValue| x@)
}

pub open spec fn anns_view(v: Seq<CodeAnnotation>) -> Seq<AnnotationData> {
    v.map_values(|x: CodeAnnotation| x@)
}

pub open spec fn props_view(v: Seq<CodeProperty>) -> Seq<PropertyData> {
    v.map_values(|x: CodeProperty| x@)
}

pub open spec fn calls_view(v: Seq<CodeCall>) -> Seq<CallData> {
    v.map_values(|x: CodeCall| x@)
}

pub open spec fn fields_view(v: Seq<CodeField>) -> Seq<FieldData> {
    v.map_values(|x: CodeField| x@)
}

pub open spec fn imports_view(v: Seq<CodeImport>) -> Seq<ImportData> {
    v.map_values(|x: CodeImport| x@)
}

pub open spec fn exports_view(v: Seq<CodeExport>) -> Seq<ExportData> {
    v.map_values(|x: CodeExport| x@)
}

pub open spec fn funcs_view(v: Seq<CodeFunction>) -> Seq<FunctionData> {
    Seq::new(
        v.len(),
        |i: int|
            if 0 <= i < v.len() {
                func_view(v[i])
            } else {
                arbitrary()
            },
    )
}

pub open spec fn cdss_view(v: Seq<CodeDataStruct>) -> Seq<StructData> {
    Seq::new(
        v.len(),
        |i: int|
            if 0 <= i < v.len() {
                cds_view(v[i])
            } else {
                arbitrary()
            },
    )
}

pub open spec fn spec_kv_items(items: Seq<JsonData>, fuel: nat) -> Option<Seq<KvData>>
    decreases fuel, 0int, items.len(),
{
    if fuel == 0 {
        None
    } else if items.len() == 0 {
        Some(Seq::empty())
    } else {
        match spec_kv_of(items[0], (fuel - 1) as nat) {
            Some(x) => match spec_kv_items(items.skip(1), fuel) {
                Some(rest) => Some(seq![x] + rest),
                None => None,
            },
            None => None,
        }
    }
}

pub open spec fn spec_ann_items(items: Seq<JsonData>, fuel: nat) -> Option<Seq<AnnotationData>>
    decreases fuel, 0int, items.len(),
{
    if fuel == 0 {
        None
    } else if items.len() == 0 {
        Some(Seq::empty())
    } else {
        match spec_ann_of(items[0], (fuel - 1) as nat) {
            Some(x) => match spec_ann_items(items.skip(1), fuel) {
                Some(rest) => Some(seq![x] + rest),
                None => None,
            },
            None => None,
        }
    }
}

pub open spec fn spec_prop_items(items: Seq<JsonData>, fuel: nat) -> Option<Seq<PropertyData>>
    decreases fuel, 0int, items.len(),
{
    if fuel == 0 {
        None
    } else if items.len() == 0 {
        Some(Seq::empty())
    } else {
        match spec_prop_of(items[0], (fuel - 1) as nat) {
            Some(x) => match spec_prop_items(items.skip(1), fuel) {
                Some(rest) => Some(seq![x] + rest),
                None => None,
            },
            None => None,
        }
    }
}

pub open spec fn spec_call_items(items: Seq<JsonData>, fuel: nat) -> Option<Seq<CallData>>
    decreases fuel, 0int, items.len(),
{
    if fuel == 0 {
        None
    } else if items.len() == 0 {
        Some(Seq::empty())
    } else {
        match spec_call_of(items[0], (fuel - 1) as nat) {
            Some(x) => match spec_call_items(items.skip(1), fuel) {
                Some(rest) => Some(seq![x] + rest),
                None => None,
            },
            None => None,
        }
    }
}

pub open spec fn spec_field_items(items: Seq<JsonData>, fuel: nat) -> Option<Seq<FieldData>>
    decreases fuel, 0int, items.len(),
{
    if fuel == 0 {
        None
    } else if items.len() == 0 {
        Some(Seq::empty())
    } else {
        match spec_field_of(items[0], (fuel - 1) as nat) {
            Some(x) => match spec_field_items(items.skip(1), fuel) {
                Some(rest) => Some(seq![x] + rest),
                None => None,
            },
            None => None,
        }
    }
}

pub open spec fn spec_import_items(items: Seq<JsonData>, fuel: nat) -> Option<Seq<ImportData>>
    decreases fuel, 0int, items.len(),
{
    if fuel == 0 {
        None
    } else if items.len() == 0 {
        Some(Seq::empty())
    } else {
        match spec_import_of(items[0], (fuel - 1) as nat) {
            Some(x) => match spec_import_items(items.skip(1), fuel) {
                Some(rest) => Some(seq![x] + rest),
                None => None,
            },
            None => None,
        }
    }
}

pub open spec fn spec_export_items(items: Seq<JsonData>, fuel: nat) -> Option<Seq<ExportData>>
    decreases fuel, 0int, items.len(),
{
    if fuel == 0 {
        None
    } else if items.len() == 0 {
        Some(Seq::empty())
    } else {
        match spec_export_of(items[0], (fuel - 1) as nat) {
            Some(x) => match spec_export_items(items.skip(1), fuel) {
                Some(rest) => Some(seq![x] + rest),
                None => None,
            },
            None => None,
        }
    }
}

pub open spec fn spec_func_items(items: Seq<JsonData>, fuel: nat) -> Option<Seq<FunctionData>>
    decreases fuel, 0int, items.len(),
{
    if fuel == 0 {
        None
    } else if items.len() == 0 {
        Some(Seq::empty())
    } else {
        match spec_func_of(items[0], (fuel - 1) as nat) {
            Some(x) => match spec_func_items(items.skip(1), fuel) {
                Some(rest) => Some(seq![x] + rest),
                None => None,
            },
            None => None,
        }
    }
}

pub open spec fn spec_cds_items(items: Seq<JsonData>, fuel: nat) -> Option<Seq<StructData>>
    decreases fuel, 0int, items.len(),
{
    if fuel == 0 {
        None
    } else if items.len() == 0 {
        Some(Seq::empty())
    } else {
        match spec_cds_of(items[0], (fuel - 1) as nat) {
            Some(x) => match spec_cds_items(items.skip(1), fuel) {
                Some(rest) => Some(seq![x] + rest),
                None => None,
            },
            None => None,
        }
    }
}

fn kv_items(items: &Vec<JsonValue>, fuel: u32) -> (r: Option<Vec<AnnotationKeyValue>>)
    ensures
        r matches Some(v) ==> spec_kv_items(crate::json::vals_view(items@), fuel as nat)
            == Some(kvs_view(v@)),
        r is None <==> spec_kv_items(crate::json::vals_view(items@), fuel as nat) is None,
    decreases fuel, items@.len(), 1int,
{
    let ghost m = crate::json::vals_view(items@);
    if fuel == 0 {
        return None;
    }
    let mut out: Vec<AnnotationKeyValue> = Vec::new();
    let mut i: usize = 0;
    proof {
        assert(m.skip(0) =~= m);
    }
    while i < items.len()
        invariant
            fuel > 0,
            m == crate::json::vals_view(items@),
            m.len() == items@.len(),
            i <= items@.len(),
            kvs_view(out@).len() == i,
            spec_kv_items(m, fuel as nat) matches Some(all) ==> all =~= kvs_view(out@) + (match
            spec_kv_items(m.skip(i as int), fuel as nat) {
                Some(rest) => rest,
                None => Seq::empty(),
            }),
            spec_kv_items(m, fuel as nat) is Some ==> spec_kv_items(m.skip(i as int), fuel as nat)
                is Some,
            spec_kv_items(m.skip(i as int), fuel as nat) is Some ==> spec_kv_items(
                m,
                fuel as nat,
            ) is Some,
        decreases items@.len() - i,
    {
        proof {
            assert(m[i as int] == crate::json::json_view(items@[i as int]));
            assert(m.skip(i as int)[0] == m[i as int]);
        }
        match kv_of(&items[i], fuel - 1) {
            Some(d) => {
                let ghost prev = kvs_view(out@);
                out.push(d);
                proof {
                    assert(kvs_view(out@) =~= prev.push(d@));
                    assert(m.skip(i as int).skip(1) =~= m.skip(i + 1));
                    if spec_kv_items(m.skip(i + 1), fuel as nat) is Some {
                        assert(spec_kv_items(m.skip(i as int), fuel as nat) matches Some(xx) && xx
                            =~= seq![spec_kv_of(m[i as int], (fuel - 1) as nat)->Some_0]
                            + spec_kv_items(m.skip(i + 1), fuel as nat)->Some_0);
                    }
                }
            },
            None => {
                proof {
                    assert(spec_kv_items(m.skip(i as int), fuel as nat) is None);
                }
                return None;
            },
        }
        i = i + 1;
    }
    proof {
        assert(m.skip(i as int) =~= Seq::<JsonData>::empty());
        assert(spec_kv_items(m, fuel as nat) matches Some(all) && all =~= kvs_view(out@));
    }
    Some(out)
}

fn ann_items(items: &Vec<JsonValue>, fuel: u32) -> (r: Option<Vec<CodeAnnotation>>)
    ensures
        r matches Some(v) ==> spec_ann_items(crate::json::vals_view(items@), fuel as nat)
            == Some(anns_view(v@)),
        r is None <==> spec_ann_items(crate::json::vals_view(items@), fuel as nat) is None,
    decreases fuel, items@.len(), 1int,
{
    let ghost m = crate::json::vals_view(items@);
    if fuel == 0 {
        return None;
    }
    let mut out: Vec<CodeAnnotation> = Vec::new();
    let mut i: usize = 0;
    proof {
        assert(m.skip(0) =~= m);
    }
    while i < items.len()
        invariant
            fuel > 0,
            m == crate::json::vals_view(items@),
            m.len() == items@.len(),
            i <= items@.len(),
            anns_view(out@).len() == i,
            spec_ann_items(m, fuel as nat) matches Some(all) ==> all =~= anns_view(out@) + (match
            spec_ann_items(m.skip(i as int), fuel as nat) {
                Some(rest) => rest,
                None => Seq::empty(),
            }),
            spec_ann_items(m, fuel as nat) is Some ==> spec_ann_items(m.skip(i as int), fuel as nat)
                is Some,
            spec_ann_items(m.skip(i as int), fuel as nat) is Some ==> spec_ann_items(
                m,
                fuel as nat,
            ) is Some,
        decreases items@.len() - i,
    {
        proof {
            assert(m[i as int] == crate::json::json_view(items@[i as int]));
            assert(m.skip(i as int)[0] == m[i as int]);
        }
        match ann_of(&items[i], fuel - 1) {
            Some(d) => {
                let ghost prev = anns_view(out@);
                out.push(d);
                proof {
                    assert(anns_view(out@) =~= prev.push(d@));
                    assert(m.skip(i as int).skip(1) =~= m.skip(i + 1));
                    if spec_ann_items(m.skip(i + 1), fuel as nat) is Some {
                        assert(spec_ann_items(m.skip(i as int), fuel as nat) matches Some(xx) && xx
                            =~= seq![spec_ann_of(m[i as int], (fuel - 1) as nat)->Some_0]
                            + spec_ann_items(m.skip(i + 1), fuel as nat)->Some_0);
                    }
                }
            },
            None => {
                proof {
                    assert(spec_ann_items(m.skip(i as int), fuel as nat) is None);
                }
                return None;
            },
        }
        i = i + 1;
    }
    proof {
        assert(m.skip(i as int) =~= Seq::<JsonData>::empty());
        assert(spec_ann_items(m, fuel as nat) matches Some(all) && all =~= anns_view(out@));
    }
    Some(out)
}

fn prop_items(items: &Vec<JsonValue>, fuel: u32) -> (r: Option<Vec<CodeProperty>>)
    ensures
        r matches Some(v) ==> spec_prop_items(crate::json::vals_view(items@), fuel as nat)
            == Some(props_view(v@)),
        r is None <==> spec_prop_items(crate::json::vals_view(items@), fuel as nat) is None,
    decreases fuel, items@.len(), 1int,
{
    let ghost m = crate::json::vals_view(items@);
    if fuel == 0 {
        return None;
    }
    let mut out: Vec<CodeProperty> = Vec::new();
    let mut i: usize = 0;
    proof {
        assert(m.skip(0) =~= m);
    }
    while i < items.len()
        invariant
            fuel > 0,
            m == crate::json::vals_view(items@),
            m.len() == items@.len(),
            i <= items@.len(),
            props_view(out@).len() == i,
            spec_prop_items(m, fuel as nat) matches Some(all) ==> all =~= props_view(out@) + (match
            spec_prop_items(m.skip(i as int), fuel as nat) {
                Some(rest) => rest,
                None => Seq::empty(),
            }),
            spec_prop_items(m, fuel as nat) is Some ==> spec_prop_items(m.skip(i as int), fuel as nat)
                is Some,
            spec_prop_items(m.skip(i as int), fuel as nat) is Some ==> spec_prop_items(
                m,
                fuel as nat,
            ) is Some,
        decreases items@.len() - i,
    {
        proof {
            assert(m[i as int] == crate::json::json_view(items@[i as int]));
            assert(m.skip(i as int)[0] == m[i as int]);
        }
        match prop_of(&items[i], fuel - 1) {
            Some(d) => {
                let ghost prev = props_view(out@);
                out.push(d);
                proof {
                    assert(props_view(out@) =~= prev.push(d@));
                    assert(m.skip(i as int).skip(1) =~= m.skip(i + 1));
                    if spec_prop_items(m.skip(i + 1), fuel as nat) is Some {
                        assert(spec_prop_items(m.skip(i as int), fuel as nat) matches Some(xx) && xx
                            =~= seq![spec_prop_of(m[i as int], (fuel - 1) as nat)->Some_0]
                            + spec_prop_items(m.skip(i + 1), fuel as nat)->Some_0);
                    }
                }
            },
            None => {
                proof {
                    assert(spec_prop_items(m.skip(i as int), fuel as nat) is None);
                }
                return None;
            },
        }
        i = i + 1;
    }
    proof {
        assert(m.skip(i as int) =~= Seq::<JsonData>::empty());
        assert(spec_prop_items(m, fuel as nat) matches Some(all) && all =~= props_view(out@));
    }
    Some(out)
}

fn call_items(items: &Vec<JsonValue>, fuel: u32) -> (r: Option<Vec<CodeCall>>)
    ensures
        r matches Some(v) ==> spec_call_items(crate::json::vals_view(items@), fuel as nat)
            == Some(calls_view(v@)),
        r is None <==> spec_call_items(crate::json::vals_view(items@), fuel as nat) is None,
    decreases fuel, items@.len(), 1int,
{
    let ghost m = crate::json::vals_view(items@);
    if fuel == 0 {
        return None;
    }
    let mut out: Vec<CodeCall> = Vec::new();
    let mut i: usize = 0;
    proof {
        assert(m.skip(0) =~= m);
    }
    while i < items.len()
        invariant
            fuel > 0,
            m == crate::json::vals_view(items@),
            m.len() == items@.len(),
            i <= items@.len(),
            calls_view(out@).len() == i,
            spec_call_items(m, fuel as nat) matches Some(all) ==> all =~= calls_view(out@) + (match
            spec_call_items(m.skip(i as int), fuel as nat) {
                Some(rest) => rest,
                None => Seq::empty(),
            }),
            spec_call_items(m, fuel as nat) is Some ==> spec_call_items(m.skip(i as int), fuel as nat)
                is Some,
            spec_call_items(m.skip(i as int), fuel as nat) is Some ==> spec_call_items(
                m,
                fuel as nat,
            ) is Some,
        decreases items@.len() - i,
    {
        proof {
            assert(m[i as int] == crate::json::json_view(items@[i as int]));
            assert(m.skip(i as int)[0] == m[i as int]);
        }
        match call_of(&items[i], fuel - 1) {
            Some(d) => {
                let ghost prev = calls_view(out@);
                out.push(d);
                proof {
                    assert(calls_view(out@) =~= prev.push(d@));
                    assert(m.skip(i as int).skip(1) =~= m.skip(i + 1));
                    if spec_call_items(m.skip(i + 1), fuel as nat) is Some {
                        assert(spec_call_items(m.skip(i as int), fuel as nat) matches Some(xx) && xx
                            =~= seq![spec_call_of(m[i as int], (fuel - 1) as nat)->Some_0]
                            + spec_call_items(m.skip(i + 1), fuel as nat)->Some_0);
                    }
                }
            },
            None => {
                proof {
                    assert(spec_call_items(m.skip(i as int), fuel as nat) is None);
                }
                return None;
            },
        }
        i = i + 1;
    }
    proof {
        assert(m.skip(i as int) =~= Seq::<JsonData>::empty());
        assert(spec_call_items(m, fuel as nat) matches Some(all) && all =~= calls_view(out@));
    }
    Some(out)
}

fn field_items(items: &Vec<JsonValue>, fuel: u32) -> (r: Option<Vec<CodeField>>)
    ensures
        r matches Some(v) ==> spec_field_items(crate::json::vals_view(items@), fuel as nat)
            == Some(fields_view(v@)),
        r is None <==> spec_field_items(crate::json::vals_view(items@), fuel as nat) is None,
    decreases fuel, items@.len(), 1int,
{
    let ghost m = crate::json::vals_view(items@);
    if fuel == 0 {
        return None;
    }
    let mut out: Vec<CodeField> = Vec::new();
    let mut i: usize = 0;
    proof {
        assert(m.skip(0) =~= m);
    }
    while i < items.len()
        invariant
            fuel > 0,
            m == crate::json::vals_view(items@),
            m.len() == items@.len(),
            i <= items@.len(),
            fields_view(out@).len() == i,
            spec_field_items(m, fuel as nat) matches Some(all) ==> all =~= fields_view(out@) + (match
            spec_field_items(m.skip(i as int), fuel as nat) {
                Some(rest) => rest,
                None => Seq::empty(),
            }),
            spec_field_items(m, fuel as nat) is Some ==> spec_field_items(m.skip(i as int), fuel as nat)
                is Some,
            spec_field_items(m.skip(i as int), fuel as nat) is Some ==> spec_field_items(
                m,
                fuel as nat,
            ) is Some,
        decreases items@.len() - i,
    {
        proof {
            assert(m[i as int] == crate::json::json_view(items@[i as int]));
            assert(m.skip(i as int)[0] == m[i as int]);
        }
        match field_of(&items[i], fuel - 1) {
            Some(d) => {
                let ghost prev = fields_view(out@);
                out.push(d);
                proof {
                    assert(fields_view(out@) =~= prev.push(d@));
                    assert(m.skip(i as int).skip(1) =~= m.skip(i + 1));
                    if spec_field_items(m.skip(i + 1), fuel as nat) is Some {
                        assert(spec_field_items(m.skip(i as int), fuel as nat) matches Some(xx) && xx
                            =~= seq![spec_field_of(m[i as int], (fuel - 1) as nat)->Some_0]
                            + spec_field_items(m.skip(i + 1), fuel as nat)->Some_0);
                    }
                }
            },
            None => {
                proof {
                    assert(spec_field_items(m.skip(i as int), fuel as nat) is None);
                }
                return None;
            },
        }
        i = i + 1;
    }
    proof {
        assert(m.skip(i as int) =~= Seq::<JsonData>::empty());
        assert(spec_field_items(m, fuel as nat) matches Some(all) && all =~= fields_view(out@));
    }
    Some(out)
}

fn import_items(items: &Vec<JsonValue>, fuel: u32) -> (r: Option<Vec<CodeImport>>)
    ensures
        r matches Some(v) ==> spec_import_items(crate::json::vals_view(items@), fuel as nat)
            == Some(imports_view(v@)),
        r is None <==> spec_import_items(crate::json::vals_view(items@), fuel as nat) is None,
    decreases fuel, items@.len(), 1int,
{
    let ghost m = crate::json::vals_view(items@);
    if fuel == 0 {
        return None;
    }
    let mut out: Vec<CodeImport> = Vec::new();
    let mut i: usize = 0;
    proof {
        assert(m.skip(0) =~= m);
    }
    while i < items.len()
        invariant
            fuel > 0,
            m == crate::json::vals_view(items@),
            m.len() == items@.len(),
            i <= items@.len(),
            imports_view(out@).len() == i,
            spec_import_items(m, fuel as nat) matches Some(all) ==> all =~= imports_view(out@) + (match
            spec_import_items(m.skip(i as int), fuel as nat) {
                Some(rest) => rest,
                None => Seq::empty(),
            }),
            spec_import_items(m, fuel as nat) is Some ==> spec_import_items(m.skip(i as int), fuel as nat)
                is Some,
            spec_import_items(m.skip(i as int), fuel as nat) is Some ==> spec_import_items(
                m,
                fuel as nat,
            ) is Some,
        decreases items@.len() - i,
    {
        proof {
            assert(m[i as int] == crate::json::json_view(items@[i as int]));
            assert(m.skip(i as int)[0] == m[i as int]);
        }
        match import_of(&items[i], fuel - 1) {
            Some(d) => {
                let ghost prev = imports_view(out@);
                out.push(d);
                proof {
                    assert(imports_view(out@) =~= prev.push(d@));
                    assert(m.skip(i as int).skip(1) =~= m.skip(i + 1));
                    if spec_import_items(m.skip(i + 1), fuel as nat) is Some {
                        assert(spec_import_items(m.skip(i as int), fuel as nat) matches Some(xx) && xx
                            =~= seq![spec_import_of(m[i as int], (fuel - 1) as nat)->Some_0]
                            + spec_import_items(m.skip(i + 1), fuel as nat)->Some_0);
                    }
                }
            },
            None => {
                proof {
                    assert(spec_import_items(m.skip(i as int), fuel as nat) is None);
                }
                return None;
            },
        }
        i = i + 1;
    }
    proof {
        assert(m.skip(i as int) =~= Seq::<JsonData>::empty());
        assert(spec_import_items(m, fuel as nat) matches Some(all) && all =~= imports_view(out@));
    }
    Some(out)
}

fn export_items(items: &Vec<JsonValue>, fuel: u32) -> (r: Option<Vec<CodeExport>>)
    ensures
        r matches Some(v) ==> spec_export_items(crate::json::vals_view(items@), fuel as nat)
            == Some(exports_view(v@)),
        r is None <==> spec_export_items(crate::json::vals_view(items@), fuel as nat) is None,
    decreases fuel, items@.len(), 1int,
{
    let ghost m = crate::json::vals_view(items@);
    if fuel == 0 {
        return None;
    }
    let mut out: Vec<CodeExport> = Vec::new();
    let mut i: usize = 0;
    proof {
        assert(m.skip(0) =~= m);
    }
    while i < items.len()
        invariant
            fuel > 0,
            m == crate::json::vals_view(items@),
            m.len() == items@.len(),
            i <= items@.len(),
            exports_view(out@).len() == i,
            spec_export_items(m, fuel as nat) matches Some(all) ==> all =~= exports_view(out@) + (match
            spec_export_items(m.skip(i as int), fuel as nat) {
                Some(rest) => rest,
                None => Seq::empty(),
            }),
            spec_export_items(m, fuel as nat) is Some ==> spec_export_items(m.skip(i as int), fuel as nat)
                is Some,
            spec_export_items(m.skip(i as int), fuel as nat) is Some ==> spec_export_items(
                m,
                fuel as nat,
            ) is Some,
        decreases items@.len() - i,
    {
        proof {
            assert(m[i as int] == crate::json::json_view(items@[i as int]));
            assert(m.skip(i as int)[0] == m[i as int]);
        }
        match export_of(&items[i], fuel - 1) {
            Some(d) => {
                let ghost prev = exports_view(out@);
                out.push(d);
                proof {
                    assert(exports_view(out@) =~= prev.push(d@));
                    assert(m.skip(i as int).skip(1) =~= m.skip(i + 1));
                    if spec_export_items(m.skip(i + 1), fuel as nat) is Some {
                        assert(spec_export_items(m.skip(i as int), fuel as nat) matches Some(xx) && xx
                            =~= seq![spec_export_of(m[i as int], (fuel - 1) as nat)->Some_0]
                            + spec_export_items(m.skip(i + 1), fuel as nat)->Some_0);
                    }
                }
            },
            None => {
                proof {
                    assert(spec_export_items(m.skip(i as int), fuel as nat) is None);
                }
                return None;
            },
        }
        i = i + 1;
    }
    proof {
        assert(m.skip(i as int) =~= Seq::<JsonData>::empty());
        assert(spec_export_items(m, fuel as nat) matches Some(all) && all =~= exports_view(out@));
    }
    Some(out)
}

fn func_items(items: &Vec<JsonValue>, fuel: u32) -> (r: Option<Vec<CodeFunction>>)
    ensures
        r matches Some(v) ==> spec_func_items(crate::json::vals_view(items@), fuel as nat)
            == Some(funcs_view(v@)),
        r is None <==> spec_func_items(crate::json::vals_view(items@), fuel as nat) is None,
    decreases fuel, items@.len(), 1int,
{
    let ghost m = crate::json::vals_view(items@);
    if fuel == 0 {
        return None;
    }
    let mut out: Vec<CodeFunction> = Vec::new();
    let mut i: usize = 0;
    proof {
        assert(m.skip(0) =~= m);
    }
    while i < items.len()
        invariant
            fuel > 0,
            m == crate::json::vals_view(items@),
            m.len() == items@.len(),
            i <= items@.len(),
            funcs_view(out@).len() == i,
            spec_func_items(m, fuel as nat) matches Some(all) ==> all =~= funcs_view(out@) + (match
            spec_func_items(m.skip(i as int), fuel as nat) {
                Some(rest) => rest,
                None => Seq::empty(),
            }),
            spec_func_items(m, fuel as nat) is Some ==> spec_func_items(m.skip(i as int), fuel as nat)
                is Some,
            spec_func_items(m.skip(i as int), fuel as nat) is Some ==> spec_func_items(
                m,
                fuel as nat,
            ) is Some,
        decreases items@.len() - i,
    {
        proof {
            assert(m[i as int] == crate::json::json_view(items@[i as int]));
            assert(m.skip(i as int)[0] == m[i as int]);
        }
        match func_of(&items[i], fuel - 1) {
            Some(d) => {
                let ghost prev = funcs_view(out@);
                out.push(d);
                proof {
                    assert(funcs_view(out@) =~= prev.push(d@));
                    assert(m.skip(i as int).skip(1) =~= m.skip(i + 1));
                    if spec_func_items(m.skip(i + 1), fuel as nat) is Some {
                        assert(spec_func_items(m.skip(i as int), fuel as nat) matches Some(xx) && xx
                            =~= seq![spec_func_of(m[i as int], (fuel - 1) as nat)->Some_0]
                            + spec_func_items(m.skip(i + 1), fuel as nat)->Some_0);
                    }
                }
            },
            None => {
                proof {
                    assert(spec_func_items(m.skip(i as int), fuel as nat) is None);
                }
                return None;
            },
        }
        i = i + 1;
    }
    proof {
        assert(m.skip(i as int) =~= Seq::<JsonData>::empty());
        assert(spec_func_items(m, fuel as nat) matches Some(all) && all =~= funcs_view(out@));
    }
    Some(out)
}

fn cds_items(items: &Vec<JsonValue>, fuel: u32) -> (r: Option<Vec<CodeDataStruct>>)
    ensures
        r matches Some(v) ==> spec_cds_items(crate::json::vals_view(items@), fuel as nat)
            == Some(cdss_view(v@)),
        r is None <==> spec_cds_items(crate::json::vals_view(items@), fuel as nat) is None,
    decreases fuel, items@.len(), 1int,
{
    let ghost m = crate::json::vals_view(items@);
    if fuel == 0 {
        return None;
    }
    let mut out: Vec<CodeDataStruct> = Vec::new();
    let mut i: usize = 0;
    proof {
        assert(m.skip(0) =~= m);
    }
    while i < items.len()
        invariant
            fuel > 0,
            m == crate::json::vals_view(items@),
            m.len() == items@.len(),
            i <= items@.len(),
            cdss_view(out@).len() == i,
            spec_cds_items(m, fuel as nat) matches Some(all) ==> all =~= cdss_view(out@) + (match
            spec_cds_items(m.skip(i as int), fuel as nat) {
                Some(rest) => rest,
                None => Seq::empty(),
            }),
            spec_cds_items(m, fuel as nat) is Some ==> spec_cds_items(m.skip(i as int), fuel as nat)
                is Some,
            spec_cds_items(m.skip(i as int), fuel as nat) is Some ==> spec_cds_items(
                m,
                fuel as nat,
            ) is Some,
        decreases items@.len() - i,
    {
        proof {
            assert(m[i as int] == crate::json::json_view(items@[i as int]));
            assert(m.skip(i as int)[0] == m[i as int]);
        }
        match cds_of(&items[i], fuel - 1) {
            Some(d) => {
                let ghost prev = cdss_view(out@);
                out.push(d);
                proof {
                    assert(cdss_view(out@) =~= prev.push(d@));
                    assert(m.skip(i as int).skip(1) =~= m.skip(i + 1));
                    if spec_cds_items(m.skip(i + 1), fuel as nat) is Some {
                        assert(spec_cds_items(m.skip(i as int), fuel as nat) matches Some(xx) && xx
                            =~= seq![spec_cds_of(m[i as int], (fuel - 1) as nat)->Some_0]
                            + spec_cds_items(m.skip(i + 1), fuel as nat)->Some_0);
                    }
                }
            },
            None => {
                proof {
                    assert(spec_cds_items(m.skip(i as int), fuel as nat) is None);
                }
                return None;
            },
        }
        i = i + 1;
    }
    proof {
        assert(m.skip(i as int) =~= Seq::<JsonData>::empty());
        assert(spec_cds_items(m, fuel as nat) matches Some(all) && all =~= cdss_view(out@));
    }
    Some(out)
}

} // verus!

verus! {

/// The annotation list field, defaulting to the empty list.
pub open spec fn spec_def_anns(f: Seq<(Seq<char>, JsonData)>, k: Seq<char>, fuel: nat) -> Option<
    Seq<AnnotationData>,
>
    decreases fuel, 1int, 0int,
{
    match spec_obj_get(f, k) {
        None => Some(Seq::empty()),
        Some(JsonData::Arr(items)) => spec_ann_items(items, fuel),
        Some(_) => None,
    }
}

/// The property list field, defaulting to the empty list.
pub open spec fn spec_def_props(f: Seq<(Seq<char>, JsonData)>, k: Seq<char>, fuel: nat) -> Option<
    Seq<PropertyData>,
>
    decreases fuel, 1int, 0int,
{
    match spec_obj_get(f, k) {
        None => Some(Seq::empty()),
        Some(JsonData::Arr(items)) => spec_prop_items(items, fuel),
        Some(_) => None,
    }
}

/// The call list field, defaulting to the empty list.
pub open spec fn spec_def_calls(f: Seq<(Seq<char>, JsonData)>, k: Seq<char>, fuel: nat) -> Option<
    Seq<CallData>,
>
    decreases fuel, 1int, 0int,
{
    match spec_obj_get(f, k) {
        None => Some(Seq::empty()),
        Some(JsonData::Arr(items)) => spec_call_items(items, fuel),
        Some(_) => None,
    }
}

/// The field list field, defaulting to the empty list.
pub open spec fn spec_def_fields(f: Seq<(Seq<char>, JsonData)>, k: Seq<char>, fuel: nat) -> Option<
    Seq<FieldData>,
>
    decreases fuel, 1int, 0int,
{
    match spec_obj_get(f, k) {
        None => Some(Seq::empty()),
        Some(JsonData::Arr(items)) => spec_field_items(items, fuel),
        Some(_) => None,
    }
}

/// The import list field, defaulting to the empty list.
pub open spec fn spec_def_imports(f: Seq<(Seq<char>, JsonData)>, k: Seq<char>, fuel: nat) -> Option<
    Seq<ImportData>,
>
    decreases fuel, 1int, 0int,
{
    match spec_obj_get(f, k) {
        None => Some(Seq::empty()),
        Some(JsonData::Arr(items)) => spec_import_items(items, fuel),
        Some(_) => None,
    }
}

/// The export list field, defaulting to the empty list.
pub open spec fn spec_def_exports(f: Seq<(Seq<char>, JsonData)>, k: Seq<char>, fuel: nat) -> Option<
    Seq<ExportData>,
>
    decreases fuel, 1int, 0int,
{
    match spec_obj_get(f, k) {
        None => Some(Seq::empty()),
        Some(JsonData::Arr(items)) => spec_export_items(items, fuel),
        Some(_) => None,
    }
}

/// The function list field, defaulting to the empty list.
pub open spec fn spec_def_funcs(f: Seq<(Seq<char>, JsonData)>, k: Seq<char>, fuel: nat) -> Option<
    Seq<FunctionData>,
>
    decreases fuel, 1int, 0int,
{
    match spec_obj_get(f, k) {
        None => Some(Seq::empty()),
        Some(JsonData::Arr(items)) => spec_func_items(items, fuel),
        Some(_) => None,
    }
}

/// The structure list field, defaulting to the empty list.
pub open spec fn spec_def_cdss(f: Seq<(Seq<char>, JsonData)>, k: Seq<char>, fuel: nat) -> Option<
    Seq<StructData>,
>
    decreases fuel, 1int, 0int,
{
    match spec_obj_get(f, k) {
        None => Some(Seq::empty()),
        Some(JsonData::Arr(items)) => spec_cds_items(items, fuel),
        Some(_) => None,
    }
}

/// The extension field: any value, kept as it stands.
pub open spec fn spec_opt_extension(
    f: Seq<(Seq<char>, JsonData)>,
    fuel: nat,
) -> Option<Option<JsonData>> {
    match spec_obj_get(f, "Extension"@) {
        None => Some(None),
        Some(d) => if crate::json::spec_copy_ok(d, fuel) {
            Some(Some(d))
        } else {
            None
        },
    }
}

/// A property record.
pub open spec fn spec_prop_of(v: JsonData, fuel: nat) -> Option<PropertyData>
    decreases fuel, 2int, 0int,
{
    if fuel == 0 {
        None
    } else {
        match v {
            JsonData::Obj(f) => {
                let modifiers = spec_def_strlist(f, "Modifiers"@);
                let default_value = spec_opt_str(f, "DefaultValue"@);
                let type_value = spec_req_str(f, "TypeValue"@);
                let type_type = spec_req_str(f, "TypeType"@);
                let annotations = spec_def_anns(f, "Annotations"@, (fuel - 1) as nat);
                let object_value = spec_def_props(f, "ObjectValue"@, (fuel - 1) as nat);
                let return_types = spec_def_props(f, "ReturnTypes"@, (fuel - 1) as nat);
                let parameters = spec_def_props(f, "Parameters"@, (fuel - 1) as nat);
                if modifiers is Some && default_value is Some && type_value is Some && type_type
                    is Some && annotations is Some && object_value is Some && return_types is Some
                    && parameters is Some {
                    Some(
                        PropertyData {
                            modifiers: modifiers->Some_0,
                            default_value: default_value->Some_0,
                            type_value: type_value->Some_0,
                            type_type: type_type->Some_0,
                            annotations: annotations->Some_0,
                            object_value: object_value->Some_0,
                            return_types: return_types->Some_0,
                            parameters: parameters->Some_0,
                        },
                    )
                } else {
                    None
                }
            },
            _ => None,
        }
    }
}

fn prop_of(v: &JsonValue, fuel: u32) -> (r: Option<CodeProperty>)
    ensures
        r matches Some(d) ==> spec_prop_of(crate::json::json_view(*v), fuel as nat) == Some(d@),
        r is None <==> spec_prop_of(crate::json::json_view(*v), fuel as nat) is None,
    decreases fuel, 0int, 0int,
{
    if fuel == 0 {
        return None;
    }
    let fields = match v {
        JsonValue::Obj(fields) => fields,
        _ => {
            return None;
        },
    };
    proof {
        crate::json::lemma_view_obj(*v);
    }
    let modifiers = match def_strlist(fields, "Modifiers") {
        Some(x) => x,
        None => {
            return None;
        },
    };
    let default_value = match opt_str(fields, "DefaultValue") {
        Some(x) => x,
        None => {
            return None;
        },
    };
    let type_value = match req_str(fields, "TypeValue") {
        Some(x) => x,
        None => {
            return None;
        },
    };
    let type_type = match req_str(fields, "TypeType") {
        Some(x) => x,
        None => {
            return None;
        },
    };
    let annotations: Vec<CodeAnnotation> = match list_field(fields, "Annotations") {
        Ok(None) => Vec::new(),
        Ok(Some(items)) => match ann_items(items, fuel - 1) {
            Some(xs) => xs,
            None => {
                return None;
            },
        },
        Err(_) => {
            return None;
        },
    };
    let object_value: Vec<CodeProperty> = match list_field(fields, "ObjectValue") {
        Ok(None) => Vec::new(),
        Ok(Some(items)) => match prop_items(items, fuel - 1) {
            Some(xs) => xs,
            None => {
                return None;
            },
        },
        Err(_) => {
            return None;
        },
    };
    let return_types: Vec<CodeProperty> = match list_field(fields, "ReturnTypes") {
        Ok(None) => Vec::new(),
        Ok(Some(items)) => match prop_items(items, fuel - 1) {
            Some(xs) => xs,
            None => {
                return None;
            },
        },
        Err(_) => {
            return None;
        },
    };
    let parameters: Vec<CodeProperty> = match list_field(fields, "Parameters") {
        Ok(None) => Vec::new(),
        Ok(Some(items)) => match prop_items(items, fuel - 1) {
            Some(xs) => xs,
            None => {
                return None;
            },
        },
        Err(_) => {
            return None;
        },
    };
    proof {
        assert(anns_view(Seq::<CodeAnnotation>::empty()) =~= Seq::<AnnotationData>::empty());
        assert(props_view(Seq::<CodeProperty>::empty()) =~= Seq::<PropertyData>::empty());
        assert(strs_view(Seq::<String>::empty()) =~= Seq::<Seq<char>>::empty());
    }
    let r = CodeProperty {
        modifiers,
        default_value,
        type_value,
        type_type,
        annotations,
        object_value,
        return_types,
        parameters,
    };
    proof {
        assert forall|j: int| 0 <= j < r.object_value@.len() implies r@.object_value[j]
            == props_view(r.object_value@)[j] by {
            assert(r@.object_value[j] == r.object_value@[j]@);
        }
        assert(r@.object_value =~= props_view(r.object_value@));
        assert forall|j: int| 0 <= j < r.return_types@.len() implies r@.return_types[j]
            == props_view(r.return_types@)[j] by {
            assert(r@.return_types[j] == r.return_types@[j]@);
        }
        assert(r@.return_types =~= props_view(r.return_types@));
        assert forall|j: int| 0 <= j < r.parameters@.len() implies r@.parameters[j]
            == props_view(r.parameters@)[j] by {
            assert(r@.parameters[j] == r.parameters@[j]@);
        }
        assert(r@.parameters =~= props_view(r.parameters@));
    }
    Some(r)
}

/// A call record.
pub open spec fn spec_call_of(v: JsonData, fuel: nat) -> Option<CallData>
    decreases fuel, 2int, 0int,
{
    if fuel == 0 {
        None
    } else {
        match v {
            JsonData::Obj(f) => {
                let package = spec_opt_str(f, "Package"@);
                let call_type = match spec_obj_get(f, "CallType"@) {
                    None => Some(CallType::Function),
                    Some(JsonData::Str(s)) => spec_call_type_of(s),
                    Some(_) => None,
                };
                let node_name = spec_def_str(f, "NodeName"@);
                let function_name = spec_def_str(f, "FunctionName"@);
                let parameters = spec_def_props(f, "Parameters"@, (fuel - 1) as nat);
                let position = match spec_obj_get(f, "Position"@) {
                    Some(p) => spec_position_of(p),
                    None => None,
                };
                let origin_node_name = spec_def_str(f, "OriginNodeName"@);
                if package is Some && call_type is Some && node_name is Some && function_name
                    is Some && parameters is Some && position is Some && origin_node_name
                    is Some {
                    Some(
                        CallData {
                            package: package->Some_0,
                            call_type: call_type->Some_0,
                            node_name: node_name->Some_0,
                            function_name: function_name->Some_0,
                            parameters: parameters->Some_0,
                            position: position->Some_0,
                            origin_node_name: origin_node_name->Some_0,
                        },
                    )
                } else {
                    None
                }
            },
            _ => None,
        }
    }
}

fn call_of(v: &JsonValue, fuel: u32) -> (r: Option<CodeCall>)
    ensures
        r matches Some(d) ==> spec_call_of(crate::json::json_view(*v), fuel as nat) == Some(d@),
        r is None <==> spec_call_of(crate::json::json_view(*v), fuel as nat) is None,
    decreases fuel, 0int, 0int,
{
    if fuel == 0 {
        return None;
    }
    let fields = match v {
        JsonValue::Obj(fields) => fields,
        _ => {
            return None;
        },
    };
    proof {
        crate::json::lemma_view_obj(*v);
    }
    let package = match opt_str(fields, "Package") {
        Some(x) => x,
        None => {
            return None;
        },
    };
    let call_type = match obj_get(fields, "CallType") {
        None => CallType::Function,
        Some(JsonValue::Str(s)) => match call_type_of(s.as_str()) {
            Some(t) => t,
            None => {
                return None;
            },
        },
        Some(_) => {
            return None;
        },
    };
    let node_name = match def_str(fields, "NodeName") {
        Some(x) => x,
        None => {
            return None;
        },
    };
    let function_name = match def_str(fields, "FunctionName") {
        Some(x) => x,
        None => {
            return None;
        },
    };
    let parameters: Vec<CodeProperty> = match list_field(fields, "Parameters") {
        Ok(None) => Vec::new(),
        Ok(Some(items)) => match prop_items(items, fuel - 1) {
            Some(xs) => xs,
            None => {
                return None;
            },
        },
        Err(_) => {
            return None;
        },
    };
    let position = match obj_get(fields, "Position") {
        Some(pv) => match position_of(pv) {
            Some(p) => p,
            None => {
                return None;
            },
        },
        None => {
            return None;
        },
    };
    let origin_node_name = match def_str(fields, "OriginNodeName") {
        Some(x) => x,
        None => {
            return None;
        },
    };
    proof {
        assert(props_view(Seq::<CodeProperty>::empty()) =~= Seq::<PropertyData>::empty());
    }
    Some(
        CodeCall {
            package,
            call_type,
            node_name,
            function_name,
            parameters,
            position,
            origin_node_name,
        },
    )
}

/// A field record.
pub open spec fn spec_field_of(v: JsonData, fuel: nat) -> Option<FieldData>
    decreases fuel, 2int, 0int,
{
    if fuel == 0 {
        None
    } else {
        match v {
            JsonData::Obj(f) => {
                let type_type = spec_opt_str(f, "TypeType"@);
                let type_value = spec_opt_str(f, "TypeValue"@);
                let type_key = spec_opt_str(f, "TypeKey"@);
                let annotations = spec_def_anns(f, "Annotations"@, (fuel - 1) as nat);
                let modifiers = spec_def_strlist(f, "Modifiers"@);
                let calls = spec_def_calls(f, "Calls"@, (fuel - 1) as nat);
                if type_type is Some && type_value is Some && type_key is Some && annotations
                    is Some && modifiers is Some && calls is Some {
                    Some(
                        FieldData {
                            type_type: type_type->Some_0,
                            type_value: type_value->Some_0,
                            type_key: type_key->Some_0,
                            annotations: annotations->Some_0,
                            modifiers: modifiers->Some_0,
                            calls: calls->Some_0,
                        },
                    )
                } else {
                    None
                }
            },
            _ => None,
        }
    }
}

fn field_of(v: &JsonValue, fuel: u32) -> (r: Option<CodeField>)
    ensures
        r matches Some(d) ==> spec_field_of(crate::json::json_view(*v), fuel as nat) == Some(d@),
        r is None <==> spec_field_of(crate::json::json_view(*v), fuel as nat) is None,
    decreases fuel, 0int, 0int,
{
    if fuel == 0 {
        return None;
    }
    let fields = match v {
        JsonValue::Obj(fields) => fields,
        _ => {
            return None;
        },
    };
    proof {
        crate::json::lemma_view_obj(*v);
    }
    let type_type = match opt_str(fields, "TypeType") {
        Some(x) => x,
        None => {
            return None;
        },
    };
    let type_value = match opt_str(fields, "TypeValue") {
        Some(x) => x,
        None => {
            return None;
        },
    };
    let type_key = match opt_str(fields, "TypeKey") {
        Some(x) => x,
        None => {
            return None;
        },
    };
    let annotations: Vec<CodeAnnotation> = match list_field(fields, "Annotations") {
        Ok(None) => Vec::new(),
        Ok(Some(items)) => match ann_items(items, fuel - 1) {
            Some(xs) => xs,
            None => {
                return None;
            },
        },
        Err(_) => {
            return None;
        },
    };
    let modifiers = match def_strlist(fields, "Modifiers") {
        Some(x) => x,
        None => {
            return None;
        },
    };
    let calls: Vec<CodeCall> = match list_field(fields, "Calls") {
        Ok(None) => Vec::new(),
        Ok(Some(items)) => match call_items(items, fuel - 1) {
            Some(xs) => xs,
            None => {
                return None;
            },
        },
        Err(_) => {
            return None;
        },
    };
    proof {
        assert(anns_view(Seq::<CodeAnnotation>::empty()) =~= Seq::<AnnotationData>::empty());
        assert(calls_view(Seq::<CodeCall>::empty()) =~= Seq::<CallData>::empty());
        assert(strs_view(Seq::<String>::empty()) =~= Seq::<Seq<char>>::empty());
    }
    Some(CodeField { type_type, type_value, type_key, annotations, modifiers, calls })
}

/// An import record.
pub open spec fn spec_import_of(v: JsonData, fuel: nat) -> Option<ImportData>
    decreases fuel, 2int, 0int,
{
    if fuel == 0 {
        None
    } else {
        match v {
            JsonData::Obj(f) => {
                let source = spec_req_str(f, "Source"@);
                let as_name = spec_def_str(f, "AsName"@);
                let usage_name = spec_req_strlist(f, "UsageName"@);
                let scope = spec_opt_str(f, "Scope"@);
                if source is Some && as_name is Some && usage_name is Some && scope is Some {
                    Some(
                        ImportData {
                            source: source->Some_0,
                            as_name: as_name->Some_0,
                            usage_name: usage_name->Some_0,
                            scope: scope->Some_0,
                        },
                    )
                } else {
                    None
                }
            },
            _ => None,
        }
    }
}

fn import_of(v: &JsonValue, fuel: u32) -> (r: Option<CodeImport>)
    ensures
        r matches Some(d) ==> spec_import_of(crate::json::json_view(*v), fuel as nat) == Some(d@),
        r is None <==> spec_import_of(crate::json::json_view(*v), fuel as nat) is None,
    decreases fuel, 0int, 0int,
{
    if fuel == 0 {
        return None;
    }
    let fields = match v {
        JsonValue::Obj(fields) => fields,
        _ => {
            return None;
        },
    };
    proof {
        crate::json::lemma_view_obj(*v);
    }
    let source = match req_str(fields, "Source") {
        Some(x) => x,
        None => {
            return None;
        },
    };
    let as_name = match def_str(fields, "AsName") {
        Some(x) => x,
        None => {
            return None;
        },
    };
    let usage_name = match req_strlist(fields, "UsageName") {
        Some(x) => x,
        None => {
            return None;
        },
    };
    let scope = match opt_str(fields, "Scope") {
        Some(x) => x,
        None => {
            return None;
        },
    };
    Some(CodeImport { source, as_name, usage_name, scope })
}

/// An export record.
pub open spec fn spec_export_of(v: JsonData, fuel: nat) -> Option<ExportData>
    decreases fuel, 2int, 0int,
{
    if fuel == 0 {
        None
    } else {
        match v {
            JsonData::Obj(f) => {
                let name = spec_req_str(f, "Name"@);
                let source_file = spec_req_str(f, "SourceFile"@);
                let data_type = match spec_obj_get(f, "DataType"@) {
                    None => Some(None),
                    Some(JsonData::Null) => Some(None),
                    Some(JsonData::Str(s)) => match spec_ds_type_of(s) {
                        Some(t) => Some(Some(t)),
                        None => None,
                    },
                    Some(_) => None,
                };
                if name is Some && source_file is Some && data_type is Some {
                    Some(
                        ExportData {
                            name: name->Some_0,
                            source_file: source_file->Some_0,
                            data_type: data_type->Some_0,
                        },
                    )
                } else {
                    None
                }
            },
            _ => None,
        }
    }
}

fn export_of(v: &JsonValue, fuel: u32) -> (r: Option<CodeExport>)
    ensures
        r matches Some(d) ==> spec_export_of(crate::json::json_view(*v), fuel as nat) == Some(d@),
        r is None <==> spec_export_of(crate::json::json_view(*v), fuel as nat) is None,
    decreases fuel, 0int, 0int,
{
    if fuel == 0 {
        return None;
    }
    let fields = match v {
        JsonValue::Obj(fields) => fields,
        _ => {
            return None;
        },
    };
    proof {
        crate::json::lemma_view_obj(*v);
    }
    let name = match req_str(fields, "Name") {
        Some(x) => x,
        None => {
            return None;
        },
    };
    let source_file = match req_str(fields, "SourceFile") {
        Some(x) => x,
        None => {
            return None;
        },
    };
    let data_type = match obj_get(fields, "DataType") {
        None => None,
        Some(JsonValue::Null) => None,
        Some(JsonValue::Str(s)) => match ds_type_of(s.as_str()) {
            Some(t) => Some(t),
            None => {
                return None;
            },
        },
        Some(_) => {
            return None;
        },
    };
    Some(CodeExport { name, source_file, data_type })
}

} // verus!

verus! {

/// A function record.
pub open spec fn spec_func_of(v: JsonData, fuel: nat) -> Option<FunctionData>
    decreases fuel, 2int, 0int,
{
    if fuel == 0 {
        None
    } else {
        match v {
            JsonData::Obj(f) => {
                let name = spec_req_str(f, "Name"@);
                let file_path = spec_def_str(f, "FilePath"@);
                let package = spec_def_str(f, "Package"@);
                let return_type = spec_req_str(f, "ReturnType"@);
                let multiple_returns = spec_def_props(f, "MultipleReturns"@, (fuel - 1) as nat);
                let parameters = spec_def_props(f, "Parameters"@, (fuel - 1) as nat);
                let function_calls = spec_def_calls(f, "FunctionCalls"@, (fuel - 1) as nat);
                let annotations = spec_def_anns(f, "Annotations"@, (fuel - 1) as nat);
                let is_override = spec_def_bool(f, "Override"@);
                let modifiers = spec_def_strlist(f, "Modifiers"@);
                let inner_structures = spec_def_cdss(f, "InnerStructures"@, (fuel - 1) as nat);
                let inner_functions = spec_def_funcs(f, "InnerFunctions"@, (fuel - 1) as nat);
                let position = match spec_obj_get(f, "Position"@) {
                    Some(p) => spec_position_of(p),
                    None => None,
                };
                let extension = spec_opt_extension(f, (fuel - 1) as nat);
                let local_variables = spec_def_props(f, "LocalVariables"@, (fuel - 1) as nat);
                let is_constructor = spec_opt_bool(f, "IsConstructor"@);
                let is_return_html = spec_opt_bool(f, "IsReturnHtml"@);
                let body_hash = spec_opt_i32(f, "BodyHash"@);
                let function_type = match spec_obj_get(f, "FunctionType"@) {
                    None => Some(FunctionType::Function),
                    Some(JsonData::Str(s)) => spec_function_type_of(s),
                    Some(_) => None,
                };
                if name is Some && file_path is Some && package is Some && return_type is Some
                    && multiple_returns is Some && parameters is Some && function_calls is Some
                    && annotations is Some && is_override is Some && modifiers is Some
                    && inner_structures is Some && inner_functions is Some && position is Some
                    && extension is Some && local_variables is Some && is_constructor is Some
                    && is_return_html is Some && body_hash is Some && function_type is Some {
                    Some(
                        FunctionData {
                            name: name->Some_0,
                            file_path: file_path->Some_0,
                            package: package->Some_0,
                            return_type: return_type->Some_0,
                            multiple_returns: multiple_returns->Some_0,
                            parameters: parameters->Some_0,
                            function_calls: function_calls->Some_0,
                            annotations: annotations->Some_0,
                            is_override: is_override->Some_0,
                            modifiers: modifiers->Some_0,
                            inner_structures: inner_structures->Some_0,
                            inner_functions: inner_functions->Some_0,
                            position: position->Some_0,
                            extension: extension->Some_0,
                            local_variables: local_variables->Some_0,
                            is_constructor: is_constructor->Some_0,
                            is_return_html: is_return_html->Some_0,
                            body_hash: body_hash->Some_0,
                            function_type: function_type->Some_0,
                        },
                    )
                } else {
                    None
                }
            },
            _ => None,
        }
    }
}

fn func_of(v: &JsonValue, fuel: u32) -> (r: Option<CodeFunction>)
    ensures
        r matches Some(d) ==> spec_func_of(crate::json::json_view(*v), fuel as nat) == Some(d@),
        r is None <==> spec_func_of(crate::json::json_view(*v), fuel as nat) is None,
    decreases fuel, 0int, 0int,
{
    if fuel == 0 {
        return None;
    }
    let fields = match v {
        JsonValue::Obj(fields) => fields,
        _ => {
            return None;
        },
    };
    proof {
        crate::json::lemma_view_obj(*v);
    }
    let name = match req_str(fields, "Name") {
        Some(x) => x,
        None => {
            return None;
        },
    };
    let file_path = match def_str(fields, "FilePath") {
        Some(x) => x,
        None => {
            return None;
        },
    };
    let package = match def_str(fields, "Package") {
        Some(x) => x,
        None => {
            return None;
        },
    };
    let return_type = match req_str(fields, "ReturnType") {
        Some(x) => x,
        None => {
            return None;
        },
    };
    let multiple_returns: Vec<CodeProperty> = match list_field(fields, "MultipleReturns") {
        Ok(None) => Vec::new(),
        Ok(Some(items)) => match prop_items(items, fuel - 1) {
            Some(xs) => xs,
            None => {
                return None;
            },
        },
        Err(_) => {
            return None;
        },
    };
    let parameters: Vec<CodeProperty> = match list_field(fields, "Parameters") {
        Ok(None) => Vec::new(),
        Ok(Some(items)) => match prop_items(items, fuel - 1) {
            Some(xs) => xs,
            None => {
                return None;
            },
        },
        Err(_) => {
            return None;
        },
    };
    let function_calls: Vec<CodeCall> = match list_field(fields, "FunctionCalls") {
        Ok(None) => Vec::new(),
        Ok(Some(items)) => match call_items(items, fuel - 1) {
            Some(xs) => xs,
            None => {
                return None;
            },
        },
        Err(_) => {
            return None;
        },
    };
    let annotations: Vec<CodeAnnotation> = match list_field(fields, "Annotations") {
        Ok(None) => Vec::new(),
        Ok(Some(items)) => match ann_items(items, fuel - 1) {
            Some(xs) => xs,
            None => {
                return None;
            },
        },
        Err(_) => {
            return None;
        },
    };
    let is_override = match def_bool(fields, "Override") {
        Some(x) => x,
        None => {
            return None;
        },
    };
    let modifiers = match def_strlist(fields, "Modifiers") {
        Some(x) => x,
        None => {
            return None;
        },
    };
    let inner_structures: Vec<CodeDataStruct> = match list_field(fields, "InnerStructures") {
        Ok(None) => Vec::new(),
        Ok(Some(items)) => match cds_items(items, fuel - 1) {
            Some(xs) => xs,
            None => {
                return None;
            },
        },
        Err(_) => {
            return None;
        },
    };
    let inner_functions: Vec<CodeFunction> = match list_field(fields, "InnerFunctions") {
        Ok(None) => Vec::new(),
        Ok(Some(items)) => match func_items(items, fuel - 1) {
            Some(xs) => xs,
            None => {
                return None;
            },
        },
        Err(_) => {
            return None;
        },
    };
    let position = match obj_get(fields, "Position") {
        Some(pv) => match position_of(pv) {
            Some(p) => p,
            None => {
                return None;
            },
        },
        None => {
            return None;
        },
    };
    let extension: Option<JsonValue> = match obj_get(fields, "Extension") {
        None => None,
        Some(ev) => match crate::json::json_copy(ev, fuel - 1) {
            Some(c) => Some(c),
            None => {
                return None;
            },
        },
    };
    let local_variables: Vec<CodeProperty> = match list_field(fields, "LocalVariables") {
        Ok(None) => Vec::new(),
        Ok(Some(items)) => match prop_items(items, fuel - 1) {
            Some(xs) => xs,
            None => {
                return None;
            },
        },
        Err(_) => {
            return None;
        },
    };
    let is_constructor = match opt_bool(fields, "IsConstructor") {
        Some(x) => x,
        None => {
            return None;
        },
    };
    let is_return_html = match opt_bool(fields, "IsReturnHtml") {
        Some(x) => x,
        None => {
            return None;
        },
    };
    let body_hash = match opt_i32(fields, "BodyHash") {
        Some(x) => x,
        None => {
            return None;
        },
    };
    let function_type = match obj_get(fields, "FunctionType") {
        None => FunctionType::Function,
        Some(JsonValue::Str(s)) => match function_type_of(s.as_str()) {
            Some(t) => t,
            None => {
                return None;
            },
        },
        Some(_) => {
            return None;
        },
    };
    proof {
        assert(anns_view(Seq::<CodeAnnotation>::empty()) =~= Seq::<AnnotationData>::empty());
        assert(props_view(Seq::<CodeProperty>::empty()) =~= Seq::<PropertyData>::empty());
        assert(calls_view(Seq::<CodeCall>::empty()) =~= Seq::<CallData>::empty());
        assert(funcs_view(Seq::<CodeFunction>::empty()) =~= Seq::<FunctionData>::empty());
        assert(cdss_view(Seq::<CodeDataStruct>::empty()) =~= Seq::<StructData>::empty());
        assert(strs_view(Seq::<String>::empty()) =~= Seq::<Seq<char>>::empty());
    }
    let r = CodeFunction {
        name,
        file_path,
        package,
        return_type,
        multiple_returns,
        parameters,
        function_calls,
        annotations,
        is_override,
        modifiers,
        inner_structures,
        inner_functions,
        position,
        extension,
        local_variables,
        is_constructor,
        is_return_html,
        body_hash,
        function_type,
    };
    proof {
        assert(r@.inner_structures =~= cdss_view(r.inner_structures@));
        assert(r@.inner_functions =~= funcs_view(r.inner_functions@));
    }
    Some(r)
}

/// A data-structure record.
pub open spec fn spec_cds_of(v: JsonData, fuel: nat) -> Option<StructData>
    decreases fuel, 2int, 0int,
{
    if fuel == 0 {
        None
    } else {
        match v {
            JsonData::Obj(f) => {
                let node_name = spec_req_str(f, "NodeName"@);
                let module = spec_def_str(f, "Module"@);
                let data_type = match spec_obj_get(f, "DataType"@) {
                    None => Some(DataStructType::Default),
                    Some(JsonData::Str(s)) => spec_ds_type_of(s),
                    Some(_) => None,
                };
                let package = spec_def_str(f, "Package"@);
                let file_path = spec_def_str(f, "FilePath"@);
                let fields_list = spec_def_fields(f, "Fields"@, (fuel - 1) as nat);
                let multiple_extend = spec_def_strlist(f, "MultipleExtend"@);
                let implements = spec_def_strlist(f, "Implements"@);
                let extend = spec_def_str(f, "Extend"@);
                let functions = spec_def_funcs(f, "Functions"@, (fuel - 1) as nat);
                let inner_structures = spec_def_cdss(f, "InnerStructures"@, (fuel - 1) as nat);
                let annotations = spec_def_anns(f, "Annotations"@, (fuel - 1) as nat);
                let function_calls = spec_def_calls(f, "FunctionCalls"@, (fuel - 1) as nat);
                let parameters = spec_def_props(f, "Parameters"@, (fuel - 1) as nat);
                let imports = spec_def_imports(f, "Imports"@, (fuel - 1) as nat);
                let exports = spec_def_exports(f, "Exports"@, (fuel - 1) as nat);
                let extension = spec_opt_extension(f, (fuel - 1) as nat);
                let position = match spec_obj_get(f, "Position"@) {
                    Some(p) => spec_position_of(p),
                    None => None,
                };
                if node_name is Some && module is Some && data_type is Some && package is Some
                    && file_path is Some && fields_list is Some && multiple_extend is Some
                    && implements is Some && extend is Some && functions is Some
                    && inner_structures is Some && annotations is Some && function_calls is Some
                    && parameters is Some && imports is Some && exports is Some && extension
                    is Some && position is Some {
                    Some(
                        StructData {
                            node_name: node_name->Some_0,
                            module: module->Some_0,
                            data_type: data_type->Some_0,
                            package: package->Some_0,
                            file_path: file_path->Some_0,
                            fields: fields_list->Some_0,
                            multiple_extend: multiple_extend->Some_0,
                            implements: implements->Some_0,
                            extend: extend->Some_0,
                            functions: functions->Some_0,
                            inner_structures: inner_structures->Some_0,
                            annotations: annotations->Some_0,
                            function_calls: function_calls->Some_0,
                            parameters: parameters->Some_0,
                            imports: imports->Some_0,
                            exports: exports->Some_0,
                            extension: extension->Some_0,
                            position: position->Some_0,
                        },
                    )
                } else {
                    None
                }
            },
            _ => None,
        }
    }
}

fn cds_of(v: &JsonValue, fuel: u32) -> (r: Option<CodeDataStruct>)
    ensures
        r matches Some(d) ==> spec_cds_of(crate::json::json_view(*v), fuel as nat) == Some(d@),
        r is None <==> spec_cds_of(crate::json::json_view(*v), fuel as nat) is None,
    decreases fuel, 0int, 0int,
{
    if fuel == 0 {
        return None;
    }
    let fields = match v {
        JsonValue::Obj(fields) => fields,
        _ => {
            return None;
        },
    };
    proof {
        crate::json::lemma_view_obj(*v);
    }
    let node_name = match req_str(fields, "NodeName") {
        Some(x) => x,
        None => {
            return None;
        },
    };
    let module = match def_str(fields, "Module") {
        Some(x) => x,
        None => {
            return None;
        },
    };
    let data_type = match obj_get(fields, "DataType") {
        None => DataStructType::Default,
        Some(JsonValue::Str(s)) => match ds_type_of(s.as_str()) {
            Some(t) => t,
            None => {
                return None;
            },
        },
        Some(_) => {
            return None;
        },
    };
    let package = match def_str(fields, "Package") {
        Some(x) => x,
        None => {
            return None;
        },
    };
    let file_path = match def_str(fields, "FilePath") {
        Some(x) => x,
        None => {
            return None;
        },
    };
    let fields_list: Vec<CodeField> = match list_field(fields, "Fields") {
        Ok(None) => Vec::new(),
        Ok(Some(items)) => match field_items(items, fuel - 1) {
            Some(xs) => xs,
            None => {
                return None;
            },
        },
        Err(_) => {
            return None;
        },
    };
    let multiple_extend = match def_strlist(fields, "MultipleExtend") {
        Some(x) => x,
        None => {
            return None;
        },
    };
    let implements = match def_strlist(fields, "Implements") {
        Some(x) => x,
        None => {
            return None;
        },
    };
    let extend = match def_str(fields, "Extend") {
        Some(x) => x,
        None => {
            return None;
        },
    };
    let functions: Vec<CodeFunction> = match list_field(fields, "Functions") {
        Ok(None) => Vec::new(),
        Ok(Some(items)) => match func_items(items, fuel - 1) {
            Some(xs) => xs,
            None => {
                return None;
            },
        },
        Err(_) => {
            return None;
        },
    };
    let inner_structures: Vec<CodeDataStruct> = match list_field(fields, "InnerStructures") {
        Ok(None) => Vec::new(),
        Ok(Some(items)) => match cds_items(items, fuel - 1) {
            Some(xs) => xs,
            None => {
                return None;
            },
        },
        Err(_) => {
            return None;
        },
    };
    let annotations: Vec<CodeAnnotation> = match list_field(fields, "Annotations") {
        Ok(None) => Vec::new(),
        Ok(Some(items)) => match ann_items(items, fuel - 1) {
            Some(xs) => xs,
            None => {
                return None;
            },
        },
        Err(_) => {
            return None;
        },
    };
    let function_calls: Vec<CodeCall> = match list_field(fields, "FunctionCalls") {
        Ok(None) => Vec::new(),
        Ok(Some(items)) => match call_items(items, fuel - 1) {
            Some(xs) => xs,
            None => {
                return None;
            },
        },
        Err(_) => {
            return None;
        },
    };
    let parameters: Vec<CodeProperty> = match list_field(fields, "Parameters") {
        Ok(None) => Vec::new(),
        Ok(Some(items)) => match prop_items(items, fuel - 1) {
            Some(xs) => xs,
            None => {
                return None;
            },
        },
        Err(_) => {
            return None;
        },
    };
    let imports: Vec<CodeImport> = match list_field(fields, "Imports") {
        Ok(None) => Vec::new(),
        Ok(Some(items)) => match import_items(items, fuel - 1) {
            Some(xs) => xs,
            None => {
                return None;
            },
        },
        Err(_) => {
            return None;
        },
    };
    let exports: Vec<CodeExport> = match list_field(fields, "Exports") {
        Ok(None) => Vec::new(),
        Ok(Some(items)) => match export_items(items, fuel - 1) {
            Some(xs) => xs,
            None => {
                return None;
            },
        },
        Err(_) => {
            return None;
        },
    };
    let extension: Option<JsonValue> = match obj_get(fields, "Extension") {
        None => None,
        Some(ev) => match crate::json::json_copy(ev, fuel - 1) {
            Some(c) => Some(c),
            None => {
                return None;
            },
        },
    };
    let position = match obj_get(fields, "Position") {
        Some(pv) => match position_of(pv) {
            Some(p) => p,
            None => {
                return None;
            },
        },
        None => {
            return None;
        },
    };
    proof {
        assert(anns_view(Seq::<CodeAnnotation>::empty()) =~= Seq::<AnnotationData>::empty());
        assert(props_view(Seq::<CodeProperty>::empty()) =~= Seq::<PropertyData>::empty());
        assert(calls_view(Seq::<CodeCall>::empty()) =~= Seq::<CallData>::empty());
        assert(fields_view(Seq::<CodeField>::empty()) =~= Seq::<FieldData>::empty());
        assert(imports_view(Seq::<CodeImport>::empty()) =~= Seq::<ImportData>::empty());
        assert(exports_view(Seq::<CodeExport>::empty()) =~= Seq::<ExportData>::empty());
        assert(funcs_view(Seq::<CodeFunction>::empty()) =~= Seq::<FunctionData>::empty());
        assert(cdss_view(Seq::<CodeDataStruct>::empty()) =~= Seq::<StructData>::empty());
        assert(strs_view(Seq::<String>::empty()) =~= Seq::<Seq<char>>::empty());
    }
    let r = CodeDataStruct {
        node_name,
        module,
        data_type,
        package,
        file_path,
        fields: fields_list,
        multiple_extend,
        implements,
        extend,
        functions,
        inner_structures,
        annotations,
        function_calls,
        parameters,
        imports,
        exports,
        extension,
        position,
    };
    proof {
        assert(r@.functions =~= funcs_view(r.functions@));
        assert(r@.inner_structures =~= cdss_view(r.inner_structures@));
    }
    Some(r)
}

/// What parsing a whole scanner report yields: an array of structure
/// records, all of them well formed.
pub open spec fn spec_cds_list_of(d: Option<JsonData>) -> Option<Seq<StructData>> {
    match d {
        Some(JsonData::Arr(items)) => spec_cds_items(items, DECODE_DEPTH as nat),
        _ => None,
    }
}

impl CodeDataStruct {
    /// Reads one structure record from a parsed value.
    pub fn from_json(v: &JsonValue) -> (r: Option<CodeDataStruct>)
        ensures
            r matches Some(d) ==> spec_cds_of(crate::json::json_view(*v), DECODE_DEPTH as nat)
                == Some(d@),
            r is None <==> spec_cds_of(crate::json::json_view(*v), DECODE_DEPTH as nat) is None,
    {
        cds_of(v, DECODE_DEPTH)
    }

    /// Reads a scanner report: a JSON array of structure records.
    pub fn list_from_json_str(s: &str) -> (r: Option<Vec<CodeDataStruct>>)
        ensures
            r matches Some(v) ==> spec_cds_list_of(crate::json::json_data_of(s@)) == Some(
                cdss_view(v@),
            ),
            r is None <==> spec_cds_list_of(crate::json::json_data_of(s@)) is None,
    {
        let parsed = match crate::json::parse_json(s) {
            Some(v) => v,
            None => {
                return None;
            },
        };
        let items = match &parsed {
            JsonValue::Arr(items) => items,
            _ => {
                return None;
            },
        };
        proof {
            crate::json::lemma_view_arr(parsed);
        }
        cds_items(items, DECODE_DEPTH)
    }

    /// The annotations whose name matches one of `keys`, compared without
    /// regard to ASCII case.
    pub fn filter_annotations(&self, keys: &Vec<String>) -> (r: Vec<CodeAnnotation>)
        ensures
            anns_view(r@) == spec_filter_annotations(
                self@.annotations,
                strs_view(keys@),
            ),
    {
        let ghost anns = self@.annotations;
        let mut out: Vec<CodeAnnotation> = Vec::new();
        let mut i: usize = 0;
        proof {
            assert(anns.skip(0) =~= anns);
            assert(anns_view(out@) + spec_filter_annotations(anns, strs_view(keys@))
                =~= spec_filter_annotations(anns, strs_view(keys@)));
        }
        while i < self.annotations.len()
            invariant
                anns == self@.annotations,
                anns.len() == self.annotations@.len(),
                forall|j: int|
                    0 <= j < anns.len() ==> anns[j] == (#[trigger] self.annotations@[j])@,
                i <= anns.len(),
                spec_filter_annotations(anns, strs_view(keys@)) == anns_view(out@)
                    + spec_filter_annotations(anns.skip(i as int), strs_view(keys@)),
            decreases anns.len() - i,
        {
            proof {
                assert(anns.skip(i as int)[0] == anns[i as int]);
                assert(anns.skip(i as int).skip(1) =~= anns.skip(i + 1));
            }
            if any_key_matches(keys, &self.annotations[i].name) {
                let ghost prev = anns_view(out@);
                out.push(
                    CodeAnnotation {
                        name: self.annotations[i].name.clone(),
                        key_values: clone_kvs(&self.annotations[i].key_values),
                    },
                );
                proof {
                    assert(anns_view(out@) =~= prev.push(anns[i as int]));
                }
            }
            i = i + 1;
        }
        proof {
            assert(anns.skip(anns.len() as int) =~= Seq::<AnnotationData>::empty());
            assert(spec_filter_annotations(Seq::empty(), strs_view(keys@))
                =~= Seq::<AnnotationData>::empty());
            assert(anns_view(out@) =~= spec_filter_annotations(anns, strs_view(keys@)));
        }
        out
    }
}

fn clone_kvs(kvs: &Vec<AnnotationKeyValue>) -> (r: Vec<AnnotationKeyValue>)
    ensures
        kvs_view(r@) == kvs_view(kvs@),
{
    let mut out: Vec<AnnotationKeyValue> = Vec::new();
    let mut i: usize = 0;
    while i < kvs.len()
        invariant
            i <= kvs@.len(),
            out@.len() == i,
            forall|j: int| 0 <= j < i ==> (#[trigger] out@[j])@ == kvs@[j]@,
        decreases kvs@.len() - i,
    {
        out.push(AnnotationKeyValue { key: kvs[i].key.clone(), value: kvs[i].value.clone() });
        i = i + 1;
    }
    assert(kvs_view(out@) =~= kvs_view(kvs@));
    out
}

/// Whether some key equals the name, ignoring ASCII case.
pub open spec fn spec_key_match(keys: Seq<Seq<char>>, name: Seq<char>) -> bool {
    exists|k: int|
        0 <= k < keys.len() && crate::strutil::spec_lower(#[trigger] keys[k])
            == crate::strutil::spec_lower(name)
}

fn any_key_matches(keys: &Vec<String>, name: &String) -> (r: bool)
    ensures
        r == spec_key_match(strs_view(keys@), name@),
{
    let lower_name = crate::strutil::to_ascii_lower(name.as_str());
    let mut k: usize = 0;
    while k < keys.len()
        invariant
            lower_name@ == crate::strutil::spec_lower(name@),
            k <= keys@.len(),
            forall|j: int|
                0 <= j < k ==> crate::strutil::spec_lower(#[trigger] strs_view(keys@)[j])
                    != crate::strutil::spec_lower(name@),
        decreases keys@.len() - k,
    {
        let lower_key = crate::strutil::to_ascii_lower(keys[k].as_str());
        proof {
            assert(strs_view(keys@)[k as int] == keys@[k as int]@);
            assert(crate::strutil::spec_lower(strs_view(keys@)[k as int])
                == crate::strutil::spec_lower(keys@[k as int]@));
        }
        if crate::strutil::string_eq_str(&lower_key, lower_name.as_str()) {
            return true;
        }
        k = k + 1;
    }
    false
}

/// The annotations whose name matches one of the keys, case folded.
pub open spec fn spec_filter_annotations(
    anns: Seq<AnnotationData>,
    keys: Seq<Seq<char>>,
) -> Seq<AnnotationData>
    decreases anns.len(),
{
    if anns.len() == 0 {
        Seq::empty()
    } else {
        (if spec_key_match(keys, anns[0].name) {
            seq![anns[0]]
        } else {
            Seq::empty()
        }) + spec_filter_annotations(anns.skip(1), keys)
    }
}

} // verus!

verus! {

/// An opaque extension value carried beside a record.
#[derive(Debug)]
pub struct JsonElement {
    pub data: JsonValue,
}

} // verus!
