pub mod donate;
pub mod init_project;
