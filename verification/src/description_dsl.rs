//! The description DSL: the answer shape the query transpiler asks a
//! language model to produce.

use vstd::prelude::*;
use crate::json::{obj_get_str, parse_json, spec_as_str, spec_obj_get, JsonData, JsonValue};

verus! {

/// A transpiled query: a domain, a query and a hypothetical document.
#[derive(Debug, Clone)]
pub struct DescriptionDsl {
    pub domain: String,
    pub query: String,
    pub hypothetical_document: String,
}

/// The content of a description.
pub ghost struct DescriptionData {
    pub domain: Seq<char>,
    pub query: Seq<char>,
    pub hypothetical_document: Seq<char>,
}

impl View for DescriptionDsl {
    type V = DescriptionData;

    open spec fn view(&self) -> DescriptionData {
        DescriptionData {
            domain: self.domain@,
            query: self.query@,
            hypothetical_document: self.hypothetical_document@,
        }
    }
}

/// A field accepted under its own name or a translated alias; it must be a
/// string under whichever name appears first.
pub open spec fn spec_aliased_str(
    fields: Seq<(Seq<char>, JsonData)>,
    key: Seq<char>,
    alias: Seq<char>,
) -> Option<Seq<char>> {
    match spec_obj_get(fields, key) {
        Some(v) => spec_as_str(Some(v)),
        None => spec_as_str(spec_obj_get(fields, alias)),
    }
}

/// Looks a field up under its name, then under its alias.
pub fn aliased_str(fields: &Vec<(String, JsonValue)>, key: &str, alias: &str) -> (r: Option<
    String,
>)
    ensures
        r matches Some(s) ==> spec_aliased_str(crate::json::obj_view(fields@), key@, alias@)
            == Some(s@),
        r is None <==> spec_aliased_str(crate::json::obj_view(fields@), key@, alias@) is None,
{
    match crate::json::obj_get(fields, key) {
        Some(JsonValue::Str(s)) => Some(s.clone()),
        Some(_) => None,
        None => obj_get_str(fields, alias),
    }
}

/// What parsing a description yields: all three fields must be present, each
/// under its English name or its translated alias.
pub open spec fn spec_description_of(d: Option<JsonData>) -> Option<DescriptionData> {
    match d {
        Some(JsonData::Obj(fields)) => {
            let domain = spec_aliased_str(fields, "domain"@, "领域"@);
            let query = spec_aliased_str(fields, "query"@, "查询条件"@);
            let hypothetical_document = spec_aliased_str(
                fields,
                "hypothetical_document"@,
                "假设性文档"@,
            );
            if domain is Some && query is Some && hypothetical_document is Some {
                Some(
                    DescriptionData {
                        domain: domain->Some_0,
                        query: query->Some_0,
                        hypothetical_document: hypothetical_document->Some_0,
                    },
                )
            } else {
                None
            }
        },
        _ => None,
    }
}

impl DescriptionDsl {
    /// Reads a description from its JSON text.
    pub fn from_json_str(s: &str) -> (r: Option<DescriptionDsl>)
        ensures
            r matches Some(d) ==> spec_description_of(crate::json::json_data_of(s@)) == Some(d@),
            r is None <==> spec_description_of(crate::json::json_data_of(s@)) is None,
    {
        let parsed = match parse_json(s) {
            Some(v) => v,
            None => {
                return None;
            },
        };
        let fields = match &parsed {
            JsonValue::Obj(fields) => fields,
            _ => {
                return None;
            },
        };
        proof {
            crate::json::lemma_view_obj(parsed);
        }
        let domain = match aliased_str(fields, "domain", "领域") {
            Some(v) => v,
            None => {
                return None;
            },
        };
        let query = match aliased_str(fields, "query", "查询条件") {
            Some(v) => v,
            None => {
                return None;
            },
        };
        let hypothetical_document = match aliased_str(
            fields,
            "hypothetical_document",
            "假设性文档",
        ) {
            Some(v) => v,
            None => {
                return None;
            },
        };
        Some(DescriptionDsl { domain, query, hypothetical_document })
    }
}

/// A worked example: a question and its transpiled answer.
#[derive(Debug, Clone)]
pub struct DescExample {
    pub question: String,
    pub answer: DescriptionDsl,
}

impl DescExample {
    /// The fixed example table handed to the language model.
    pub fn examples() -> (r: Vec<DescExample>)
        ensures
            r@.len() == 3,
            r@[0].question@ == "帮我接入统一收单交易撤销的接口"@,
            r@[0].answer@.domain == "payment"@,
            r@[1].answer@.domain == "customer"@,
            r@[2].answer@.domain == "fund"@,
    {
        let mut r: Vec<DescExample> = Vec::new();
        r.push(
            DescExample {
                question: "帮我接入统一收单交易撤销的接口".to_owned(),
                answer: DescriptionDsl {
                    domain: "payment".to_owned(),
                    query: "cancel Unified Acquiring Transaction".to_owned(),
                    hypothetical_document: "POST /api/alipay/trade/cancel {\"action\":\"close\",\"gmt_refund_pay\":\"officia nostrud est\",\"out_trade_no\":\"6823789339978248\",\"refund_settlement_id\":\"2018101610032004620239146945\",\"retry_flag\":\"N\",\"trade_no\":\"2013112011001004330000121536\"}".to_owned(),
                },
            },
        );
        r.push(
            DescExample {
                question: "如何查询职得(jobworth)工作证信息？".to_owned(),
                answer: DescriptionDsl {
                    domain: "customer".to_owned(),
                    query: "query jobworth work permit information".to_owned(),
                    hypothetical_document: "GET /api/customer/jobworth/info/query?user_name=张三".to_owned(),
                },
            },
        );
        r.push(
            DescExample {
                question: "因公付(enterprisepay)更新员工资金协议".to_owned(),
                answer: DescriptionDsl {
                    domain: "fund".to_owned(),
                    query: "update employee fund agreement for enterprisepay".to_owned(),
                    hypothetical_document: "PUT /api/fund/enterprisepay/sign {\"employee_id\": \"12345\", \"agreement_type\": \"fund\", \"update_fields\": {\"bank_account\": \"987654321\", \"amount\": 1500.00}}".to_owned(),
                },
            },
        );
        r
    }
}

} // verus!
