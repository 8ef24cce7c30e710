pub mod run;
