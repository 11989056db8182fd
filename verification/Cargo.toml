[package]
name = "wav_to_mp3"
version = "0.1.0"
edition = "2021"
publish = false

[dependencies]
hound = "=3.5.1"
mp3lame-encoder = "=0.2.5"
zip = { version = "=9.1.0", default-features = false, features = ["deflate"] }
chrono = "=0.4.45"
tokio = { version = "=1.54.1", features = ["macros", "rt-multi-thread"] }
flume = "0.10"
channel_io = "=0.1.3"
aws-config = { version = "=1.12.0", features = ["behavior-version-latest"] }
aws-sdk-s3 = "=1.152.0"
aws-types = "~1.6"
aws_lambda_events = { version = "=1.2.1", default-features = false, features = ["s3"] }
lambda_runtime = "=1.5.0"
