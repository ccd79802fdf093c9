//! Tests of language detection and import analysis.

use codelane::import_analyzer::{extract_imports, resolve_import_path, AnalysisLanguage};

#[test]
fn test_detect_language() {
    assert_eq!(
        AnalysisLanguage::from_path("src/main.rs"),
        Some(AnalysisLanguage::Rust)
    );
    assert_eq!(
        AnalysisLanguage::from_path("src/App.tsx"),
        Some(AnalysisLanguage::TypeScript)
    );
    assert_eq!(
        AnalysisLanguage::from_path("lib/utils.js"),
        Some(AnalysisLanguage::JavaScript)
    );
    assert_eq!(
        AnalysisLanguage::from_path("main.py"),
        Some(AnalysisLanguage::Python)
    );
    assert_eq!(
        AnalysisLanguage::from_path("main.go"),
        Some(AnalysisLanguage::Go)
    );
    assert_eq!(AnalysisLanguage::from_path("README.md"), None);
}

#[test]
fn test_extract_typescript_imports() {
    let code = "import { useState } from 'react';\nimport type { User } from './types';\nimport Button from '../components/Button';\n";

    let imports = extract_imports("src/App.tsx", code).unwrap();
    assert!(imports.contains(&"./types".to_string()));
    assert!(imports.contains(&"../components/Button".to_string()));
    // External imports like 'react' are filtered out
    assert!(!imports.iter().any(|i| i.contains("react")));
}

#[test]
fn test_extract_rust_imports() {
    let code = "use std::collections::HashMap;\nuse crate::models::User;\nuse super::utils;\n";

    let imports = extract_imports("src/main.rs", code).unwrap();
    assert!(imports.iter().any(|i| i.contains("crate::models")));
    assert!(imports.iter().any(|i| i.contains("super::utils")));
}

#[test]
fn test_extract_python_imports() {
    let code = "import os\nfrom .models import User\nfrom ..utils import helper\n";

    let imports = extract_imports("src/views.py", code).unwrap();
    assert!(imports.iter().any(|i| i.starts_with('.')));
}

#[test]
fn test_resolve_relative_typescript_import() {
    let resolved =
        resolve_import_path("src/App.tsx", "./types", AnalysisLanguage::TypeScript).unwrap();
    assert_eq!(resolved, "src/./types.ts");
    assert!(resolve_import_path("src/App.tsx", "react", AnalysisLanguage::TypeScript).is_none());
}

#[test]
fn test_resolve_rust_crate_import() {
    let resolved =
        resolve_import_path("src/main.rs", "crate::models::user", AnalysisLanguage::Rust)
            .unwrap();
    assert_eq!(resolved, "src/models/user.rs");
}
