use dataflare_wasm::marketplace::recommendation::{recommend_workflow_templates, WorkflowRequirements};
use dataflare_wasm::marketplace::types::{PerformanceRequirements, ProjectType};

fn requirements(project_type: Option<ProjectType>) -> WorkflowRequirements {
    WorkflowRequirements {
        project_type,
        data_sources: vec!["csv".to_string()],
        target_formats: vec!["json".to_string()],
        performance_requirements: PerformanceRequirements {
            max_latency_ms: Some(1000),
            min_throughput_rps: Some(100),
            memory_limit_mb: Some(512),
        },
    }
}

#[test]
fn data_pipeline_gets_the_etl_template() {
    let t = recommend_workflow_templates(&requirements(Some(ProjectType::DataPipeline))).unwrap();
    assert_eq!(t.len(), 1);
    assert_eq!(t[0].id, "etl-pipeline");
    assert_eq!(t[0].components, vec!["csv-source", "transform-processor", "db-destination"]);
    assert_eq!(t[0].estimated_setup_time, 30);
}

#[test]
fn other_projects_get_the_basic_template() {
    let t = recommend_workflow_templates(&requirements(Some(ProjectType::RealTimeAnalytics))).unwrap();
    assert_eq!(t[0].id, "realtime-analytics");
    assert_eq!(t[0].estimated_setup_time, 45);
    let t = recommend_workflow_templates(&requirements(None)).unwrap();
    assert_eq!(t[0].id, "basic-workflow");
    assert_eq!(t[0].components, vec!["file-source", "basic-processor", "file-destination"]);
    assert_eq!(t[0].estimated_setup_time, 15);
}
