use counit::analyser::JavaApiAnalyser;
use counit::chapi::CodeDataStruct;

#[test]
fn should_serialize_to_ds() {
    let json_ds = r#"[  {
    "NodeName": "DataMapAnalyserTest",
    "Module": "root:..:..",
    "Type": "CLASS",
    "Package": "org.archguard.scanner.analyser",
    "FilePath": "kotlin/org/archguard/scanner/analyser/DataMapAnalyserTest.kt",
    "Fields": [
      {
        "TypeType": "<UNKNOWN>",
        "TypeValue": "mockk<ArchGuardClient>{\nevery{saveDataStructure(any())}justruns\n}",
        "TypeKey": "mockClient",
        "Annotations": [],
        "Modifiers": [
          "private",
          "val"
        ],
        "Calls": []
      }
    ],
    "MultipleExtend": [],
    "Implements": [],
    "Functions": [
      {
        "Name": "tearDown",
        "Package": "org.archguard.scanner.analyser",
        "ReturnType": "kotlin.Unit",
        "MultipleReturns": [],
        "Parameters": [],
        "FunctionCalls": [
          {
            "Package": "io",
            "NodeName": "mockk",
            "FunctionName": "verify",
            "Parameters": [],
            "Position": {
              "StartLine": 24,
              "StartLinePosition": 8,
              "StopLine": 24,
              "StopLinePosition": 48
            }
          }
        ],
        "Annotations": [
          {
            "Name": "AfterEach",
            "KeyValues": []
          }
        ],
        "Modifiers": [],
        "InnerStructures": [],
        "InnerFunctions": [],
        "Position": {
          "StartLine": 22,
          "StartLinePosition": 3,
          "StopLine": 25,
          "StopLinePosition": 4
        },
        "LocalVariables": []
      }
    ],
    "InnerStructures": [],
    "Annotations": [],
    "FunctionCalls": [],
    "Parameters": [],
    "Imports": [
      {
        "Source": "io.mockk.clearAllMocks",
        "AsName": "clearAllMocks",
        "UsageName": []
      }
    ],
    "Exports": [],
    "Position": {
      "StartLine": 14,
      "StopLine": 26
    }
  }]
        "#;

    let ds: Vec<CodeDataStruct> = CodeDataStruct::list_from_json_str(json_ds).unwrap();
    assert_eq!(ds.len(), 1);
}

#[test]
fn chapi_model_should_serialize_to_ds() {
    let json_ds = r#"[  {
    "NodeName": "DataMapAnalyserTest",
    "Module": "root:..:..",
    "Type": "CLASS",
    "Package": "org.archguard.scanner.analyser",
    "FilePath": "kotlin/org/archguard/scanner/analyser/DataMapAnalyserTest.kt",
    "Fields": [],
    "MultipleExtend": [],
    "Implements": [],
    "Functions": [],
    "InnerStructures": [],
    "Annotations": [],
    "FunctionCalls": [],
    "Parameters": [],
    "Imports": [],
    "Exports": [],
    "Position": {
      "StartLine": 14,
      "StopLine": 26
    }
  }]
        "#;

    let ds: Vec<CodeDataStruct> = CodeDataStruct::list_from_json_str(json_ds).unwrap();
    assert_eq!(ds.len(), 1);
    assert_eq!(ds[0].node_name, "DataMapAnalyserTest");
    assert_eq!(ds[0].package, "org.archguard.scanner.analyser");
}

#[test]
fn should_convert_api() {
    let demo_code = r#"[
  {
    "NodeName": "HelloController",
    "Type": "CLASS",
    "Package": "com.example.springboot",
    "FilePath": "HelloController.java",
    "Fields": [],
    "MultipleExtend": [],
    "Implements": [],
    "Functions": [
      {
        "Name": "index",
        "ReturnType": "String",
        "MultipleReturns": [],
        "Parameters": [],
        "FunctionCalls": [],
        "Annotations": [
          {
            "Name": "GetMapping",
            "KeyValues": [
              {
                "Key": "\"/\"",
                "Value": "\"/\""
              }
            ]
          }
        ],
        "Modifiers": [],
        "InnerStructures": [],
        "InnerFunctions": [],
        "Position": {
          "StartLine": 11,
          "StartLinePosition": 11,
          "StopLine": 13,
          "StopLinePosition": 4
        },
        "LocalVariables": []
      }
    ],
    "InnerStructures": [],
    "Annotations": [
      {
        "Name": "RestController",
        "KeyValues": []
      },
      {
        "Name": "RequestMapping",
        "KeyValues": []
      }
    ],
    "FunctionCalls": [],
    "Parameters": [],
    "Imports": [
      {
        "Source": "org.springframework.web.bind.annotation.GetMapping",
        "UsageName": []
      },
      {
        "Source": "org.springframework.web.bind.annotation.RestController",
        "UsageName": []
      }
    ],
    "Exports": [],
    "Position": {
      "StartLine": 8,
      "StartLinePosition": 7,
      "StopLine": 15
    }
  }
]"#;

    let mut converter = JavaApiAnalyser::new();
    let codes: Vec<CodeDataStruct> = CodeDataStruct::list_from_json_str(demo_code).unwrap();
    converter.analysis_by_node(&codes[0], "".to_string());
    let result = converter.to_container_services();
    assert_eq!(result.len(), 1);
    let supply = &result[0].resources[0];
    assert_eq!(supply.source_url, "/");
    assert_eq!(supply.source_http_method, "Get");
    assert_eq!(supply.package_name, "com.example.springboot");
    assert_eq!(supply.class_name, "HelloController");
    assert_eq!(supply.method_name, "index");
}

#[test]
fn rest_template_calls_become_demands() {
    let demo_code = r#"[
  {
    "NodeName": "BlogClient",
    "Package": "com.example",
    "Functions": [
      {
        "Name": "fetch",
        "ReturnType": "String",
        "FunctionCalls": [
          {
            "NodeName": "RestTemplate",
            "FunctionName": "getForObject",
            "Parameters": [
              {
                "TypeValue": "\"http://blog/api\"",
                "TypeType": "String"
              }
            ],
            "Position": { "StartLine": 3, "StopLine": 3 }
          }
        ],
        "Position": { "StartLine": 2, "StopLine": 5 }
      }
    ],
    "Imports": [
      { "Source": "org.springframework.web.client.RestTemplate", "UsageName": [] }
    ],
    "Position": { "StartLine": 1, "StopLine": 9 }
  }
]"#;
    let codes: Vec<CodeDataStruct> = CodeDataStruct::list_from_json_str(demo_code).unwrap();
    let mut converter = JavaApiAnalyser::new();
    converter.analysis_by_node(&codes[0], String::new());
    let services = converter.to_container_services();
    assert_eq!(services[0].demands.len(), 1);
    assert_eq!(services[0].demands[0].target_http_method, "Get");
    assert_eq!(services[0].demands[0].target_url, "http://blog/api");
    assert_eq!(services[0].demands[0].source_caller, "BlogClient");
}

#[test]
fn filter_annotations_ignores_case() {
    let json = r#"[
  {
    "NodeName": "A",
    "Annotations": [
      { "Name": "RestController", "KeyValues": [] },
      { "Name": "Deprecated", "KeyValues": [] }
    ],
    "Position": { "StartLine": 1, "StopLine": 2 }
  }
]"#;
    let codes: Vec<CodeDataStruct> = CodeDataStruct::list_from_json_str(json).unwrap();
    let keys = vec!["restcontroller".to_string()];
    let hits = codes[0].filter_annotations(&keys);
    assert_eq!(hits.len(), 1);
    assert_eq!(hits[0].name, "RestController");
}

#[test]
fn malformed_record_is_rejected() {
    assert!(CodeDataStruct::list_from_json_str("[{\"NodeName\": 3}]").is_none());
    assert!(CodeDataStruct::list_from_json_str("{}").is_none());
}
