use diffpriv::analyzer::{clean_results, sanitize_input, SqlAnalyzer};
use diffpriv::error::QueryError;

#[test]
fn analyzer_is_read() {
    let analyser = SqlAnalyzer::new("SELECT * FROM USERS;");
    assert_eq!(true, analyser.is_read());

    let analyser = SqlAnalyzer::new("insert into ");
    assert_eq!(false, analyser.is_read());
}

#[test]
fn analyzer_tables_from_sql() {
    let analyser = SqlAnalyzer::new("SELECT * FROM USERS, MODELS;");
    assert_eq!(["users", "models"].to_vec(), analyser.tables_from_sql().unwrap());

    let analyser = SqlAnalyzer::new("SELECT * FROM USERS u, MODELS m;");
    assert_eq!(
        ["users", "u", "models", "m"].to_vec(),
        analyser.tables_from_sql().unwrap()
    );
}

#[test]
fn analyzer_columns_from_sql() {
    let analyser = SqlAnalyzer::new("SELECT * FROM USERS, MODELS;");
    assert_eq!(["*"].to_vec(), analyser.columns_from_sql());

    let analyser = SqlAnalyzer::new("SELECT name, age FROM USERS, MODELS;");
    assert_eq!(["name", "age"].to_vec(), analyser.columns_from_sql());

    let analyser = SqlAnalyzer::new("SELECT Avg(Name), Sum(Age) FROM USERS, MODELS;");
    assert_eq!(
        ["avg(name)", "sum(age)"].to_vec(),
        analyser.columns_from_sql()
    );
}

#[test]
fn tables_in_join() {
    let analyzer = SqlAnalyzer::new(
        "SELECT Employees.EmployeeID, Employees.FirstName,
            Employees.LastName, Departments.DepartmentName FROM
            Employees JOIN Departments ON Employees.DepartmentID = Departments.DepartmentID;",
    );
    assert_eq!(
        ["employees", "departments"].to_vec(),
        analyzer.tables_from_sql().unwrap()
    );
}

#[test]
fn columns_in_join() {
    let analyzer = SqlAnalyzer::new(
        "SELECT Employees.EmployeeID,
            Employees.FirstName, Employees.LastName, Departments.DepartmentName FROM
            Employees JOIN Departments ON Employees.DepartmentID = Departments.DepartmentID;",
    );
    assert_eq!(
        [
            "employees.employeeid",
            "employees.firstname",
            "employees.lastname",
            "departments.departmentname"
        ]
        .to_vec(),
        analyzer.columns_from_sql()
    )
}

#[test]
fn tables_of_a_plain_list() {
    let analyzer = SqlAnalyzer::new("SELECT * FROM USERS, MODELS;");
    assert_eq!(vec!["users", "models"], analyzer.tables_from_sql().unwrap());
}

#[test]
fn tables_of_a_join_stop_at_on() {
    let analyzer =
        SqlAnalyzer::new("SELECT e.id FROM Employees JOIN Departments ON Employees.id = Departments.id;");
    assert_eq!(vec!["employees", "departments"], analyzer.tables_from_sql().unwrap());
}

#[test]
fn tables_stop_at_each_terminal_keyword() {
    for sql in [
        "select a from t where a = 1;",
        "select a from t group by a;",
        "select a from t having a > 1;",
        "select a from t order by a;",
    ] {
        assert_eq!(vec!["t"], SqlAnalyzer::new(sql).tables_from_sql().unwrap());
    }
}

#[test]
fn aggregates_are_lower_cased() {
    let analyzer = SqlAnalyzer::new("SELECT Avg(Name), Sum(Age) FROM USERS;");
    assert_eq!(vec!["avg(name)", "sum(age)"], analyzer.columns_from_sql());
}

#[test]
fn columns_keep_order_and_duplicates() {
    let analyzer = SqlAnalyzer::new("select B, a, B from t;");
    assert_eq!(vec!["b", "a", "b"], analyzer.columns_from_sql());
}

#[test]
fn columns_without_from_run_to_the_end() {
    let analyzer = SqlAnalyzer::new("select a, b;");
    assert_eq!(vec!["a", "b"], analyzer.columns_from_sql());
}

#[test]
fn columns_of_an_empty_statement() {
    let analyzer = SqlAnalyzer::new("   ");
    assert!(analyzer.columns_from_sql().is_empty());
}

#[test]
fn missing_from_is_a_parse_failure() {
    let analyzer = SqlAnalyzer::new("SELECT 1;");
    assert_eq!(Err(QueryError::ParseFailure), analyzer.tables_from_sql());
}

#[test]
fn new_lower_cases_and_trims_the_end() {
    let analyzer = SqlAnalyzer::new("SELECT X FROM T; \n\t");
    assert_eq!("select x from t;", analyzer.sql);
}

#[test]
fn is_read_ignores_leading_whitespace() {
    assert!(SqlAnalyzer::new("  \n Select a from t").is_read());
    assert!(!SqlAnalyzer::new("selec").is_read());
    assert!(!SqlAnalyzer::new("update t set a = 1").is_read());
}

#[test]
fn clean_results_strips_spaces_commas_semicolons() {
    assert_eq!("ab", clean_results(" a,b;"));
    assert_eq!("", clean_results(",;"));
}

#[test]
fn sanitize_input_straightens_quotes() {
    assert_eq!(
        "select a from t where b = \"x\";",
        sanitize_input("select a from t where b = \u{201c}x\u{201d};")
    );
}
