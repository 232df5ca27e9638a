pub mod ci_fixes;
