//! The explain-query DSL and the prompt built around it.

use vstd::prelude::*;
use crate::json::{parse_json, spec_str_object_text, str_object_text, JsonData, JsonValue};
use crate::description_dsl::{aliased_str, spec_aliased_str};

verus! {

/// A transpiled query with its natural-language form.
#[derive(Debug, Clone)]
pub struct ExplainQuery {
    pub domain: String,
    pub query: String,
    pub nature_lang_query: String,
    pub hypothetical_document: String,
}

/// The content of an explain query.
pub ghost struct ExplainData {
    pub domain: Seq<char>,
    pub query: Seq<char>,
    pub nature_lang_query: Seq<char>,
    pub hypothetical_document: Seq<char>,
}

impl View for ExplainQuery {
    type V = ExplainData;

    open spec fn view(&self) -> ExplainData {
        ExplainData {
            domain: self.domain@,
            query: self.query@,
            nature_lang_query: self.nature_lang_query@,
            hypothetical_document: self.hypothetical_document@,
        }
    }
}

/// What parsing an explain query yields: each field under its snake name,
/// its camel-case name, or its translated alias.
pub open spec fn spec_explain_of(d: Option<JsonData>) -> Option<ExplainData> {
    match d {
        Some(JsonData::Obj(fields)) => {
            let domain = spec_aliased_str(fields, "domain"@, "领域"@);
            let query = spec_aliased_str(fields, "query"@, "查询条件"@);
            let nature_lang_query = match crate::json::spec_obj_get(fields, "nature_lang_query"@) {
                Some(v) => crate::json::spec_as_str(Some(v)),
                None => spec_aliased_str(fields, "natureLangQuery"@, "自然语言查询条件"@),
            };
            let hypothetical_document = match crate::json::spec_obj_get(
                fields,
                "hypothetical_document"@,
            ) {
                Some(v) => crate::json::spec_as_str(Some(v)),
                None => spec_aliased_str(fields, "hypotheticalDocument"@, "假设性文档"@),
            };
            if domain is Some && query is Some && nature_lang_query is Some
                && hypothetical_document is Some {
                Some(
                    ExplainData {
                        domain: domain->Some_0,
                        query: query->Some_0,
                        nature_lang_query: nature_lang_query->Some_0,
                        hypothetical_document: hypothetical_document->Some_0,
                    },
                )
            } else {
                None
            }
        },
        _ => None,
    }
}

/// The one-line JSON text of an explain query, camel-case field names in
/// declaration order.
pub open spec fn spec_explain_display(d: ExplainData) -> Seq<char> {
    spec_str_object_text(
        seq![
            ("domain"@, d.domain),
            ("query"@, d.query),
            ("natureLangQuery"@, d.nature_lang_query),
            ("hypotheticalDocument"@, d.hypothetical_document),
        ],
    )
}

impl ExplainQuery {
    /// Reads an explain query from its JSON text.
    pub fn from_json_str(s: &str) -> (r: Option<ExplainQuery>)
        ensures
            r matches Some(d) ==> spec_explain_of(crate::json::json_data_of(s@)) == Some(d@),
            r is None <==> spec_explain_of(crate::json::json_data_of(s@)) is None,
    {
        let parsed = match parse_json(s) {
            Some(v) => v,
            None => {
                return None;
            },
        };
        let fields = match &parsed {
            JsonValue::Obj(fields) => fields,
            _ => {
                return None;
            },
        };
        proof {
            crate::json::lemma_view_obj(parsed);
        }
        let domain = match aliased_str(fields, "domain", "领域") {
            Some(v) => v,
            None => {
                return None;
            },
        };
        let query = match aliased_str(fields, "query", "查询条件") {
            Some(v) => v,
            None => {
                return None;
            },
        };
        let nature_lang_query = match crate::json::obj_get(fields, "nature_lang_query") {
            Some(JsonValue::Str(s)) => s.clone(),
            Some(_) => {
                return None;
            },
            None => match aliased_str(fields, "natureLangQuery", "自然语言查询条件") {
                Some(v) => v,
                None => {
                    return None;
                },
            },
        };
        let hypothetical_document = match crate::json::obj_get(fields, "hypothetical_document") {
            Some(JsonValue::Str(s)) => s.clone(),
            Some(_) => {
                return None;
            },
            None => match aliased_str(fields, "hypotheticalDocument", "假设性文档") {
                Some(v) => v,
                None => {
                    return None;
                },
            },
        };
        Some(ExplainQuery { domain, query, nature_lang_query, hypothetical_document })
    }

    /// The JSON line this query prints as, in place of a `Display`
    /// implementation.
    pub fn display(&self) -> (r: String)
        ensures
            r@ == spec_explain_display(self@),
    {
        let mut fields: Vec<(String, String)> = Vec::new();
        fields.push(("domain".to_owned(), self.domain.clone()));
        fields.push(("query".to_owned(), self.query.clone()));
        fields.push(("natureLangQuery".to_owned(), self.nature_lang_query.clone()));
        fields.push(("hypotheticalDocument".to_owned(), self.hypothetical_document.clone()));
        let r = str_object_text(&fields);
        proof {
            assert(fields@.map_values(|f: (String, String)| (f.0@, f.1@)) =~= seq![
                ("domain"@, self.domain@),
                ("query"@, self.query@),
                ("natureLangQuery"@, self.nature_lang_query@),
                ("hypotheticalDocument"@, self.hypothetical_document@),
            ]);
        }
        r
    }
}

/// A worked question-and-answer example.
#[derive(Debug, Clone)]
pub struct QAExample {
    pub question: String,
    pub answer: ExplainQuery,
}

/// The example questions, in table order.
pub open spec fn spec_qa_questions() -> Seq<Seq<char>> {
    seq![
        "帮我接入统一收单交易撤销的接口"@,
        "如何查询职得(jobworth)工作证信息？"@,
        "因公付(enterprisepay)更新员工资金协议"@,
    ]
}

/// The example answers, in table order.
pub open spec fn spec_qa_answers() -> Seq<ExplainData> {
    seq![
        (ExplainData {
            domain: "payment"@,
            query: "payment: cancel Unified Acquiring Transaction"@,
            nature_lang_query: "接入 统一收单交易撤销 接口"@,
            hypothetical_document: "POST /api/alipay/trade/cancel {\"action\":\"close\",\"gmt_refund_pay\":\"officia nostrud est\",\"out_trade_no\":\"6823789339978248\",\"refund_settlement_id\":\"2018101610032004620239146945\",\"retry_flag\":\"N\",\"trade_no\":\"2013112011001004330000121536\"}"@,
        }),
        (ExplainData {
            domain: "customer"@,
            query: "customer: query 职得(jobworth) work permit information"@,
            nature_lang_query: "查询 职得(jobworth)工作证信息"@,
            hypothetical_document: "GET /api/customer/jobworth/info/query?user_name=张三"@,
        }),
        (ExplainData {
            domain: "fund"@,
            query: "fund: update employee fund agreement for enterprisepay"@,
            nature_lang_query: "更新 因公付(enterprisepay)员工资金协议"@,
            hypothetical_document: "PUT /api/fund/enterprisepay/sign {\"employee_id\": \"12345\", \"agreement_type\": \"fund\", \"update_fields\": {\"bank_account\": \"987654321\", \"amount\": 1500.00}}"@,
        }),
    ]
}

/// One example block of the prompt.
pub open spec fn spec_qa_block(question: Seq<char>, answer: ExplainData) -> Seq<char> {
    "Q: "@ + question + "\n"@ + "A: "@ + spec_explain_display(answer) + "\n"@ + "\n"@
}

/// The prompt preamble.
pub open spec fn spec_qa_preamble() -> Seq<char> {
    "Your job is to transpile user's question relative to codebase.\n\n1. YOU MUST follow the DSL format.\n2. You MUST translate user's question into a DSL query.\n3. `query` is a reference to the document that you think is the answer to the question.\n4. `hypothetical_document` is a example of the document that you think is the answer to the question.\n\nFor example:\n\n"@
}

/// The whole prompt for one query.
pub open spec fn spec_qa_prompt(query: Seq<char>) -> Seq<char> {
    spec_qa_preamble() + spec_qa_block(spec_qa_questions()[0], spec_qa_answers()[0])
        + spec_qa_block(spec_qa_questions()[1], spec_qa_answers()[1]) + spec_qa_block(
        spec_qa_questions()[2],
        spec_qa_answers()[2],
    ) + "Q: "@ + query + "\n"@ + "A:"@
}

impl QAExample {
    /// The fixed example table handed to the language model.
    pub fn examples() -> (r: Vec<QAExample>)
        ensures
            r@.len() == 3,
            forall|i: int|
                0 <= i < 3 ==> (#[trigger] r@[i]).question@ == spec_qa_questions()[i]
                    && r@[i].answer@ == spec_qa_answers()[i],
    {
        let mut r: Vec<QAExample> = Vec::new();
        r.push(
            QAExample {
                question: "帮我接入统一收单交易撤销的接口".to_owned(),
                answer: ExplainQuery {
                    domain: "payment".to_owned(),
                    query: "payment: cancel Unified Acquiring Transaction".to_owned(),
                    nature_lang_query: "接入 统一收单交易撤销 接口".to_owned(),
                    hypothetical_document: "POST /api/alipay/trade/cancel {\"action\":\"close\",\"gmt_refund_pay\":\"officia nostrud est\",\"out_trade_no\":\"6823789339978248\",\"refund_settlement_id\":\"2018101610032004620239146945\",\"retry_flag\":\"N\",\"trade_no\":\"2013112011001004330000121536\"}".to_owned(),
                },
            },
        );
        r.push(
            QAExample {
                question: "如何查询职得(jobworth)工作证信息？".to_owned(),
                answer: ExplainQuery {
                    domain: "customer".to_owned(),
                    query: "customer: query 职得(jobworth) work permit information".to_owned(),
                    nature_lang_query: "查询 职得(jobworth)工作证信息".to_owned(),
                    hypothetical_document: "GET /api/customer/jobworth/info/query?user_name=张三".to_owned(),
                },
            },
        );
        r.push(
            QAExample {
                question: "因公付(enterprisepay)更新员工资金协议".to_owned(),
                answer: ExplainQuery {
                    domain: "fund".to_owned(),
                    query: "fund: update employee fund agreement for enterprisepay".to_owned(),
                    nature_lang_query: "更新 因公付(enterprisepay)员工资金协议".to_owned(),
                    hypothetical_document: "PUT /api/fund/enterprisepay/sign {\"employee_id\": \"12345\", \"agreement_type\": \"fund\", \"update_fields\": {\"bank_account\": \"987654321\", \"amount\": 1500.00}}".to_owned(),
                },
            },
        );
        assert(r@[0].answer@ == spec_qa_answers()[0]);
        assert(r@[1].answer@ == spec_qa_answers()[1]);
        assert(r@[2].answer@ == spec_qa_answers()[2]);
        r
    }

    /// The transpilation prompt: the instructions, the worked examples, and
    /// the caller's question awaiting its answer.
    pub fn prompt(query: &str) -> (r: String)
        ensures
            r@ == spec_qa_prompt(query@),
    {
        let examples = Self::examples();
        let mut prompt: String =
            "Your job is to transpile user's question relative to codebase.\n\n1. YOU MUST follow the DSL format.\n2. You MUST translate user's question into a DSL query.\n3. `query` is a reference to the document that you think is the answer to the question.\n4. `hypothetical_document` is a example of the document that you think is the answer to the question.\n\nFor example:\n\n".to_owned();
        let mut i: usize = 0;
        while i < examples.len()
            invariant
                examples@.len() == 3,
                forall|j: int|
                    0 <= j < 3 ==> (#[trigger] examples@[j]).question@ == spec_qa_questions()[j]
                        && examples@[j].answer@ == spec_qa_answers()[j],
                i <= 3,
                prompt@ == spec_qa_preamble() + spec_qa_blocks_upto(i as int),
            decreases examples@.len() - i,
        {
            vstd::string::StringExecFns::append(&mut prompt, "Q: ");
            vstd::string::StringExecFns::append(&mut prompt, examples[i].question.as_str());
            vstd::string::StringExecFns::append(&mut prompt, "\n");
            vstd::string::StringExecFns::append(&mut prompt, "A: ");
            let shown = examples[i].answer.display();
            vstd::string::StringExecFns::append(&mut prompt, shown.as_str());
            vstd::string::StringExecFns::append(&mut prompt, "\n");
            vstd::string::StringExecFns::append(&mut prompt, "\n");
            proof {
                assert(prompt@ =~= spec_qa_preamble() + spec_qa_blocks_upto(i + 1));
            }
            i = i + 1;
        }
        vstd::string::StringExecFns::append(&mut prompt, "Q: ");
        vstd::string::StringExecFns::append(&mut prompt, query);
        vstd::string::StringExecFns::append(&mut prompt, "\n");
        vstd::string::StringExecFns::append(&mut prompt, "A:");
        proof {
            assert(spec_qa_blocks_upto(0) == Seq::<char>::empty());
            assert(spec_qa_blocks_upto(1) == spec_qa_blocks_upto(0) + spec_qa_block(
                spec_qa_questions()[0],
                spec_qa_answers()[0],
            ));
            assert(spec_qa_blocks_upto(2) == spec_qa_blocks_upto(1) + spec_qa_block(
                spec_qa_questions()[1],
                spec_qa_answers()[1],
            ));
            assert(spec_qa_blocks_upto(3) == spec_qa_blocks_upto(2) + spec_qa_block(
                spec_qa_questions()[2],
                spec_qa_answers()[2],
            ));
            assert(prompt@ =~= spec_qa_prompt(query@));
        }
        prompt
    }
}

/// The first `n` example blocks, concatenated.
pub open spec fn spec_qa_blocks_upto(n: int) -> Seq<char>
    decreases n,
{
    if n <= 0 {
        Seq::empty()
    } else {
        spec_qa_blocks_upto(n - 1) + spec_qa_block(
            spec_qa_questions()[n - 1],
            spec_qa_answers()[n - 1],
        )
    }
}

} // verus!
